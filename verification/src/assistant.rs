//! The local language-model assistant: where requests go, the request body,
//! how a reply and its optional action tag are read, and what is answered
//! when the model service cannot be reached.
use vstd::prelude::*;

use crate::text::{
    chars_of, contains, contains_text, find_sub, find_text_in, string_of, trim,
    trim_range,
};
use crate::trusted::{
    json_object3, json_object3_text, json_object_strings, lower_case, read_json_strings,
    to_lower_case,
};

verus! {

/// What the assistant answers: its text and, when the model proposed a
/// shell command, that command and its description.
pub struct AiResponse {
    pub reply: String,
    pub has_action: bool,
    pub action_command: Option<String>,
    pub action_desc: Option<String>,
}

/// The text of an optional string.
pub open spec fn opt_text(s: Option<String>) -> Option<Seq<char>> {
    match s {
        Some(t) => Some(t@),
        None => None,
    }
}

/// The content of an `AiResponse`.
pub struct AiModel {
    pub reply: Seq<char>,
    pub has_action: bool,
    pub action_command: Option<Seq<char>>,
    pub action_desc: Option<Seq<char>>,
}

impl View for AiResponse {
    type V = AiModel;

    open spec fn view(&self) -> AiModel {
        AiModel {
            reply: self.reply@,
            has_action: self.has_action,
            action_command: opt_text(self.action_command),
            action_desc: opt_text(self.action_desc),
        }
    }
}

// ---------------------------------------------------------------------------
// The request
// ---------------------------------------------------------------------------

/// The generate endpoint: the one given, else the local Ollama service.
pub fn ai_endpoint(endpoint: Option<String>) -> (url: String)
    ensures
        url@ == match endpoint {
            Some(e) => e@,
            None => "http://127.0.0.1:11434/api/generate"@,
        },
{
    match endpoint {
        Some(e) => e,
        None => "http://127.0.0.1:11434/api/generate".to_owned(),
    }
}

/// The model: the one given, else `qwen2.5:0.5b`.
pub fn ai_model(model: Option<String>) -> (m: String)
    ensures
        m@ == match model {
            Some(x) => x@,
            None => "qwen2.5:0.5b"@,
        },
{
    match model {
        Some(x) => x,
        None => "qwen2.5:0.5b".to_owned(),
    }
}

/// The instructions given to the model before the user's words.
pub const SYSTEM_PROMPT: &'static str = "Sen Ankora Linux (Devuan Daedalus) işletim sisteminin yerel sistem asistanısın. \
Kullanıcıya teknik, kısa ve profesyonel yanıtlar ver. \
Eğer kullanıcının talebi sistemde bir kabuk komutu çalıştırmayı gerektiriyorsa (örn: paket kurma, disk temizleme, dosya okuma), \
yanıtının sonuna tam olarak şu formatta bir eylem etiketi ekle: \
<<<ACTION:{\"command\":\"calistirilacak_komut\",\"desc\":\"Yapılacak eylemin açıklaması\"}>>> \
Asla rastgele komut uydurma. Sadece geçerli Debian/Devuan bash komutları üret.";

/// The instructions given to the model before the user's words: who it is,
/// how to answer, and how to tag a proposed shell command.
pub fn system_prompt() -> (p: &'static str)
    ensures
        p@ == SYSTEM_PROMPT@,
{
    SYSTEM_PROMPT
}

/// The prompt sent to the model: the instructions, a blank line, and the
/// user's words.
pub fn ai_prompt(prompt: &str) -> (p: String)
    ensures
        p@ == SYSTEM_PROMPT@ + "\n\nKullanıcı: "@ + prompt@,
{
    let mut p = system_prompt().to_owned();
    p.append("\n\nKullanıcı: ");
    p.append(prompt);
    p
}

/// The JSON body of a generate request: the model, the prompt, and no
/// streaming, as `serde_json` writes such an object.
pub open spec fn request_body(model: Seq<char>, prompt: Seq<char>) -> Seq<char> {
    json_object3_text(
        "model"@,
        model,
        "prompt"@,
        SYSTEM_PROMPT@ + "\n\nKullanıcı: "@ + prompt,
        "stream"@,
        false,
    )
}

/// The JSON body of a generate request, written by `serde_json`.
pub fn ai_request_body(model: &str, prompt: &str) -> (body: String)
    ensures
        body@ == request_body(model@, prompt@),
{
    let full = ai_prompt(prompt);
    proof {
        reveal_strlit("model");
        reveal_strlit("prompt");
        reveal_strlit("stream");
        assert(crate::trusted::text_less("model"@, "prompt"@));
        assert(crate::trusted::text_less("prompt"@, "stream"@));
    }
    json_object3("model", model, "prompt", full.as_str(), "stream", false).unwrap()
}

/// The error for a reply with an unsuccessful HTTP status.
pub fn ai_status_error(status: &str) -> (m: String)
    ensures
        m@ == "Ollama API hatası (Kod: "@ + status@ + ")"@,
{
    let mut m = "Ollama API hatası (Kod: ".to_owned();
    m.append(status);
    m.append(")");
    m
}

// ---------------------------------------------------------------------------
// The reply
// ---------------------------------------------------------------------------

/// A reply taken as it is, with no action.
pub open spec fn plain_reply(raw: Seq<char>) -> AiModel {
    AiModel { reply: raw, has_action: false, action_command: None, action_desc: None }
}

/// The view of what was read from an action tag.
pub open spec fn action_view(action: Option<(Option<String>, Option<String>)>) -> Option<
    (Option<Seq<char>>, Option<Seq<char>>),
> {
    match action {
        Some((c, d)) => Some((opt_text(c), opt_text(d))),
        None => None,
    }
}

/// A reply whose action tag starts at `start`: where the tag's JSON could
/// not be read, the reply is taken as it is; else the answer is the text
/// before the tag, trimmed, with the tag's `command` and `desc` strings.
pub open spec fn reply_with(
    raw: Seq<char>,
    start: int,
    action: Option<(Option<Seq<char>>, Option<Seq<char>>)>,
) -> AiModel {
    match action {
        None => plain_reply(raw),
        Some((c, d)) => AiModel {
            reply: trim(raw.take(start)),
            has_action: true,
            action_command: c,
            action_desc: d,
        },
    }
}

/// The answer read from the model's reply. The first `<<<ACTION:` opens an
/// action tag and the first `>>>` after it closes the tag; the JSON between
/// them is read for the members `command` and `desc`. A reply without a
/// whole tag, or whose tag holds no JSON, is taken as it is.
pub open spec fn ai_reply(raw: Seq<char>) -> AiModel {
    match find_sub(raw, "<<<ACTION:"@) {
        None => plain_reply(raw),
        Some(start) => match find_sub(raw.skip(start), ">>>"@) {
            None => plain_reply(raw),
            Some(end) => reply_with(
                raw,
                start,
                json_object_strings(
                    raw.subrange(start + "<<<ACTION:"@.len(), start + end),
                    "command"@,
                    "desc"@,
                ),
            ),
        },
    }
}

/// The answer for a reply whose action tag starts at `start`, given what
/// was read from the tag's JSON.
pub fn reply_with_action(
    raw: &str,
    start: usize,
    action: Option<(Option<String>, Option<String>)>,
) -> (r: AiResponse)
    requires
        start <= raw@.len(),
    ensures
        r@ == reply_with(raw@, start as int, action_view(action)),
{
    match action {
        None => AiResponse {
            reply: raw.to_owned(),
            has_action: false,
            action_command: None,
            action_desc: None,
        },
        Some((c, d)) => {
            let v = chars_of(raw);
            let (a, b) = trim_range(v.as_slice(), 0, start);
            assert(v@.subrange(0, start as int) =~= raw@.take(start as int));
            AiResponse {
                reply: string_of(v.as_slice(), a, b),
                has_action: true,
                action_command: c,
                action_desc: d,
            }
        },
    }
}

/// Reads the model's reply.
pub fn parse_ai_reply(raw: &str) -> (r: AiResponse)
    ensures
        r@ == ai_reply(raw@),
{
    let v = chars_of(raw);
    let n = v.len();
    assert(v@.subrange(0, n as int) =~= raw@);
    let plain = AiResponse {
        reply: raw.to_owned(),
        has_action: false,
        action_command: None,
        action_desc: None,
    };
    match find_text_in(v.as_slice(), 0, n, "<<<ACTION:") {
        None => plain,
        Some(start) => {
            assert(v@.subrange(start as int, n as int) =~= raw@.skip(start as int));
            match find_text_in(v.as_slice(), start, n, ">>>") {
                None => plain,
                Some(close) => {
                    let marker = chars_of("<<<ACTION:");
                    proof {
                        reveal_strlit("<<<ACTION:");
                        reveal_strlit(">>>");
                        if close < start + marker@.len() {
                            assert(v@[close as int] == ">>>"@[0]);
                            assert(v@[close as int] == "<<<ACTION:"@[close - start]);
                        }
                    }
                    let json = string_of(v.as_slice(), start + marker.len(), close);
                    let action = read_json_strings(json.as_str(), "command", "desc");
                    reply_with_action(raw, start, action)
                },
            }
        },
    }
}

/// Law: a reply without an action tag comes back unchanged and proposes
/// nothing; a reply that proposes an action shows only the trimmed text
/// before its tag.
pub proof fn lemma_reply_keeps_untagged_text(raw: Seq<char>)
    ensures
        !contains(raw, "<<<ACTION:"@) ==> ai_reply(raw) == plain_reply(raw),
        ai_reply(raw).has_action ==> exists|start: int|
            0 <= start <= raw.len() && find_sub(raw, "<<<ACTION:"@) == Some(start)
                && #[trigger] ai_reply(raw).reply == trim(raw.take(start)),
        !ai_reply(raw).has_action ==> ai_reply(raw) == plain_reply(raw),
{
    crate::text::lemma_find_sub_sound(raw, "<<<ACTION:"@);
}

// ---------------------------------------------------------------------------
// Without the model service
// ---------------------------------------------------------------------------

/// The answer when the model service cannot be reached, from the user's
/// words and their lower case: a cache clean-up for words about cleaning or
/// the cache, a disk and memory report for words about status or disks,
/// else a note that the built-in mode answers, quoting the words.
pub open spec fn offline_reply(prompt: Seq<char>, lowered: Seq<char>) -> AiModel {
    if contains(lowered, "temizle"@) || contains(lowered, "önbellek"@) {
        AiModel {
            reply: "Sistem önbelleklerinin temizlenmesi için paket önbelleği boşaltılmalıdır."@,
            has_action: true,
            action_command: Some("apt-get clean && rm -rf /tmp/*"@),
            action_desc: Some("Sistem ve geçici dosya önbelleklerini temizleme"@),
        }
    } else if contains(lowered, "durum"@) || contains(lowered, "disk"@) {
        AiModel {
            reply: "Disk ve bellek doluluk raporu taranıyor."@,
            has_action: true,
            action_command: Some("df -h / && free -m"@),
            action_desc: Some("Disk ve bellek durumunu sorgulama"@),
        }
    } else {
        AiModel {
            reply: "Ankora AI Çekirdeği hazır. Ollama (localhost:11434) servisi tespit edilemediğinden dahili sistem analiz modunda yanıt veriliyor: \""@
                + prompt + "\""@,
            has_action: false,
            action_command: None,
            action_desc: None,
        }
    }
}

/// The answer without the model service, given the lower case of the words.
pub fn offline_response_for(prompt: &str, lowered: &str) -> (r: AiResponse)
    ensures
        r@ == offline_reply(prompt@, lowered@),
{
    if contains_text(lowered, "temizle") || contains_text(lowered, "önbellek") {
        AiResponse {
            reply: "Sistem önbelleklerinin temizlenmesi için paket önbelleği boşaltılmalıdır.".to_owned(),
            has_action: true,
            action_command: Some("apt-get clean && rm -rf /tmp/*".to_owned()),
            action_desc: Some("Sistem ve geçici dosya önbelleklerini temizleme".to_owned()),
        }
    } else if contains_text(lowered, "durum") || contains_text(lowered, "disk") {
        AiResponse {
            reply: "Disk ve bellek doluluk raporu taranıyor.".to_owned(),
            has_action: true,
            action_command: Some("df -h / && free -m".to_owned()),
            action_desc: Some("Disk ve bellek durumunu sorgulama".to_owned()),
        }
    } else {
        let mut reply = "Ankora AI Çekirdeği hazır. Ollama (localhost:11434) servisi tespit edilemediğinden dahili sistem analiz modunda yanıt veriliyor: \"".to_owned();
        reply.append(prompt);
        reply.append("\"");
        AiResponse { reply, has_action: false, action_command: None, action_desc: None }
    }
}

/// The answer when the model service cannot be reached.
pub fn offline_ai_response(prompt: &str) -> (r: AiResponse)
    ensures
        r@ == offline_reply(prompt@, lower_case(prompt@)),
{
    let lowered = to_lower_case(prompt);
    offline_response_for(prompt, lowered.as_str())
}

// ---------------------------------------------------------------------------
// Answering a query
// ---------------------------------------------------------------------------

/// What came of a request to the model service.
pub enum ModelReply {
    /// The request could not be made or sent.
    Unreachable,
    /// The service answered with an unsuccessful HTTP status, given as text.
    Refused(String),
    /// The service's answer could not be read as JSON; the reason.
    Unreadable(String),
    /// The service answered; the text of its `response` member (empty where
    /// that is missing or not a string).
    Answered(String),
}

/// The answer to the user's words, from what came of the request.
pub open spec fn query_answer(prompt: Seq<char>, reply: ModelReply) -> Result<AiModel, Seq<char>> {
    match reply {
        ModelReply::Unreachable => Ok(offline_reply(prompt, lower_case(prompt))),
        ModelReply::Refused(status) => Err("Ollama API hatası (Kod: "@ + status@ + ")"@),
        ModelReply::Unreadable(reason) => Err(reason@),
        ModelReply::Answered(raw) => Ok(ai_reply(raw@)),
    }
}

pub fn ai_answer(prompt: &str, reply: ModelReply) -> (r: Result<AiResponse, String>)
    ensures
        match r {
            Ok(a) => query_answer(prompt@, reply) == Ok::<AiModel, Seq<char>>(a@),
            Err(e) => query_answer(prompt@, reply) == Err::<AiModel, Seq<char>>(e@),
        },
{
    match reply {
        ModelReply::Unreachable => Ok(offline_ai_response(prompt)),
        ModelReply::Refused(status) => Err(ai_status_error(status.as_str())),
        ModelReply::Unreadable(reason) => Err(reason),
        ModelReply::Answered(raw) => Ok(parse_ai_reply(raw.as_str())),
    }
}

/// Law: without the model service, an action is proposed exactly when a
/// command is given with it, and then a description is given too.
pub proof fn lemma_offline_action_consistent(prompt: Seq<char>, lowered: Seq<char>)
    ensures
        offline_reply(prompt, lowered).has_action <==> offline_reply(prompt, lowered).action_command is Some,
        offline_reply(prompt, lowered).has_action <==> offline_reply(prompt, lowered).action_desc is Some,
{
}

/// Law: without the model service the answer follows the keywords in the
/// lower-cased words. Words about cleaning (`temizle`) or the cache
/// (`önbellek`) propose the cache clean-up; otherwise words about status
/// (`durum`) or disks (`disk`) propose the disk and memory report; words
/// with none of the four propose nothing and quote the user's words.
pub proof fn lemma_offline_keywords(prompt: Seq<char>, lowered: Seq<char>)
    ensures
        contains(lowered, "temizle"@) ==> offline_reply(prompt, lowered) == (AiModel {
            reply: "Sistem önbelleklerinin temizlenmesi için paket önbelleği boşaltılmalıdır."@,
            has_action: true,
            action_command: Some("apt-get clean && rm -rf /tmp/*"@),
            action_desc: Some("Sistem ve geçici dosya önbelleklerini temizleme"@),
        }),
        contains(lowered, "önbellek"@) ==> offline_reply(prompt, lowered) == (AiModel {
            reply: "Sistem önbelleklerinin temizlenmesi için paket önbelleği boşaltılmalıdır."@,
            has_action: true,
            action_command: Some("apt-get clean && rm -rf /tmp/*"@),
            action_desc: Some("Sistem ve geçici dosya önbelleklerini temizleme"@),
        }),
        !contains(lowered, "temizle"@) && !contains(lowered, "önbellek"@) && contains(lowered, "durum"@)
            ==> offline_reply(prompt, lowered) == (AiModel {
            reply: "Disk ve bellek doluluk raporu taranıyor."@,
            has_action: true,
            action_command: Some("df -h / && free -m"@),
            action_desc: Some("Disk ve bellek durumunu sorgulama"@),
        }),
        !contains(lowered, "temizle"@) && !contains(lowered, "önbellek"@) && contains(lowered, "disk"@)
            ==> offline_reply(prompt, lowered) == (AiModel {
            reply: "Disk ve bellek doluluk raporu taranıyor."@,
            has_action: true,
            action_command: Some("df -h / && free -m"@),
            action_desc: Some("Disk ve bellek durumunu sorgulama"@),
        }),
        !contains(lowered, "temizle"@) && !contains(lowered, "önbellek"@) && !contains(lowered, "durum"@)
            && !contains(lowered, "disk"@) ==> offline_reply(prompt, lowered) == (AiModel {
            reply: "Ankora AI Çekirdeği hazır. Ollama (localhost:11434) servisi tespit edilemediğinden dahili sistem analiz modunda yanıt veriliyor: \""@
                + prompt + "\""@,
            has_action: false,
            action_command: None,
            action_desc: None,
        }),
{
}

} // verus!
