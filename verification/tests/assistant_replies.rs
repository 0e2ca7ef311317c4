use ankora::assistant::{
    ai_answer, ai_endpoint, ModelReply, ai_model, ai_prompt, ai_request_body, ai_status_error, offline_ai_response,
    offline_response_for, parse_ai_reply, reply_with_action, SYSTEM_PROMPT,
};

#[test]
fn defaults_for_endpoint_and_model() {
    assert_eq!(ai_endpoint(None), "http://127.0.0.1:11434/api/generate");
    assert_eq!(ai_endpoint(Some("http://h/x".to_string())), "http://h/x");
    assert_eq!(ai_model(None), "qwen2.5:0.5b");
    assert_eq!(ai_model(Some("llama".to_string())), "llama");
}

#[test]
fn the_prompt_carries_the_instructions() {
    let p = ai_prompt("merhaba");
    assert!(p.starts_with("Sen Ankora Linux (Devuan Daedalus)"));
    assert!(p.ends_with("\n\nKullanıcı: merhaba"));
    assert!(SYSTEM_PROMPT.contains("asistanısın. Kullanıcıya teknik"));
    assert!(SYSTEM_PROMPT.contains("<<<ACTION:{\"command\":\"calistirilacak_komut\""));
}

#[test]
fn the_request_body_is_json() {
    let body = ai_request_body("m\"1", "selam");
    let value: serde_json::Value = serde_json::from_str(&body).unwrap();
    assert_eq!(value["model"], "m\"1");
    assert_eq!(value["stream"], false);
    assert_eq!(value["prompt"], ai_prompt("selam"));
    assert!(body.starts_with("{\"model\":\"m\\\"1\",\"prompt\":\"Sen Ankora"));
    assert!(body.ends_with(",\"stream\":false}"));
}

#[test]
fn status_errors() {
    assert_eq!(ai_status_error("404 Not Found"), "Ollama API hatası (Kod: 404 Not Found)");
}

#[test]
fn replies_without_a_tag_are_kept() {
    let r = parse_ai_reply("  Merhaba!  ");
    assert_eq!(r.reply, "  Merhaba!  ");
    assert!(!r.has_action);
    assert!(r.action_command.is_none());
    let open = parse_ai_reply("text <<<ACTION:{\"command\":\"ls\"}");
    assert_eq!(open.reply, "text <<<ACTION:{\"command\":\"ls\"}");
    assert!(!open.has_action);
}

#[test]
fn replies_with_a_tag_propose_an_action() {
    let r = parse_ai_reply(
        "Diski kontrol ediyorum.\n <<<ACTION:{\"command\":\"df -h\",\"desc\":\"Disk\"}>>> sonra",
    );
    assert!(r.has_action);
    assert_eq!(r.reply, "Diski kontrol ediyorum.");
    assert_eq!(r.action_command, Some("df -h".to_string()));
    assert_eq!(r.action_desc, Some("Disk".to_string()));
}

#[test]
fn tags_with_missing_members_or_bad_json() {
    let r = parse_ai_reply("x<<<ACTION:{\"command\":5}>>>");
    assert!(r.has_action);
    assert_eq!(r.reply, "x");
    assert_eq!(r.action_command, None);
    assert_eq!(r.action_desc, None);
    let bad = parse_ai_reply("x <<<ACTION:not json>>>");
    assert!(!bad.has_action);
    assert_eq!(bad.reply, "x <<<ACTION:not json>>>");
}

#[test]
fn reply_with_an_action_read() {
    let r = reply_with_action(" a b <<<ACTION:", 5, Some((Some("c".to_string()), None)));
    assert_eq!(r.reply, "a b");
    assert!(r.has_action);
    let kept = reply_with_action("abc", 1, None);
    assert_eq!(kept.reply, "abc");
    assert!(!kept.has_action);
}

#[test]
fn offline_answers() {
    let clean = offline_ai_response("Önbelleği TEMIZLE lütfen");
    assert!(clean.has_action);
    let dotted = offline_ai_response("TEMİZLE");
    assert!(!dotted.has_action);
    assert_eq!(clean.action_command, Some("apt-get clean && rm -rf /tmp/*".to_string()));
    let disk = offline_ai_response("DISK durumu");
    assert_eq!(disk.action_command, Some("df -h / && free -m".to_string()));
    assert_eq!(disk.action_desc, Some("Disk ve bellek durumunu sorgulama".to_string()));
    let other = offline_ai_response("Merhaba");
    assert!(!other.has_action);
    assert_eq!(
        other.reply,
        "Ankora AI Çekirdeği hazır. Ollama (localhost:11434) servisi tespit edilemediğinden dahili sistem analiz modunda yanıt veriliyor: \"Merhaba\""
    );
    let given = offline_response_for("X", "disk");
    assert!(given.has_action);
    let upper = offline_response_for("DISK", "DISK");
    assert!(!upper.has_action);
}

#[test]
fn answers_from_what_the_service_did() {
    let offline = ai_answer("disk", ModelReply::Unreachable).unwrap();
    assert!(offline.has_action);
    assert_eq!(
        ai_answer("x", ModelReply::Refused("500 Internal Server Error".to_string())).err(),
        Some("Ollama API hatası (Kod: 500 Internal Server Error)".to_string())
    );
    assert_eq!(
        ai_answer("x", ModelReply::Unreadable("error decoding response body".to_string())).err(),
        Some("error decoding response body".to_string())
    );
    let answered = ai_answer("x", ModelReply::Answered("Tamam".to_string())).unwrap();
    assert_eq!(answered.reply, "Tamam");
    assert!(!answered.has_action);
}

#[test]
fn request_body_escapes_control_characters() {
    let body = ai_request_body("a\u{1}b\\", "x");
    assert!(body.starts_with("{\"model\":\"a\\u0001b\\\\\",\"prompt\":"));
    let value: serde_json::Value = serde_json::from_str(&body).unwrap();
    assert_eq!(value["model"], "a\u{1}b\\");
}
