use ankora::shell::{
    brightness_command, brightness_level, brightness_message, keyboard_command, keyboard_message,
    launch_command, launch_message, terminal_command, terminal_invocation, terminal_outcome,
    ProcessOutput,
};

#[test]
fn blank_terminal_commands_run_nothing() {
    assert!(terminal_command("  \t ").is_none());
    assert_eq!(terminal_command("  ls -la ").unwrap(), "ls -la");
}

#[test]
fn terminal_shells() {
    let c = terminal_invocation("ls", false);
    assert_eq!(c.program, "bash");
    assert_eq!(c.args, vec!["-c".to_string(), "ls".to_string()]);
    let w = terminal_invocation("dir", true);
    assert_eq!(w.program, "cmd");
    assert_eq!(w.args, vec!["/C".to_string(), "dir".to_string()]);
}

#[test]
fn terminal_outcomes() {
    let ok = ProcessOutput { success: true, stdout: b"out".to_vec(), stderr: b"warn".to_vec() };
    assert_eq!(terminal_outcome(Ok(ok)), Ok("out".to_string()));
    let failed = ProcessOutput { success: false, stdout: b"out".to_vec(), stderr: b"bad".to_vec() };
    assert_eq!(terminal_outcome(Ok(failed)), Err("bad".to_string()));
    let quiet = ProcessOutput { success: false, stdout: b"partial".to_vec(), stderr: b" \n".to_vec() };
    assert_eq!(terminal_outcome(Ok(quiet)), Ok("partial".to_string()));
    let lossy = ProcessOutput { success: true, stdout: vec![0x61, 0xff, 0x62], stderr: Vec::new() };
    assert_eq!(terminal_outcome(Ok(lossy)), Ok("a\u{fffd}b".to_string()));
    assert_eq!(
        terminal_outcome(Err("no such file".to_string())),
        Err("Kabuk başlatılamadı: no such file".to_string())
    );
}

#[test]
fn launching_and_keyboard() {
    let c = launch_command("  gimp  ");
    assert_eq!(c.program, "sh");
    assert_eq!(c.args[1], "DISPLAY=:0 gimp >/dev/null 2>&1 &");
    assert_eq!(launch_message(" gimp"), "Uygulama çalıştırıldı: gimp");
    let k = keyboard_command(" tr ");
    assert_eq!(k.program, "setxkbmap");
    assert_eq!(k.args, vec!["tr".to_string()]);
    assert_eq!(keyboard_message("tr\n"), "Klavye: tr");
}

#[test]
fn brightness_is_held_in_range() {
    assert_eq!(brightness_level(0), 20);
    assert_eq!(brightness_level(55), 55);
    assert_eq!(brightness_level(250), 100);
    assert_eq!(brightness_level(brightness_level(7)), brightness_level(7));
    assert_eq!(brightness_message(5), "Parlaklık ayarlandı: %20");
    assert_eq!(brightness_message(100), "Parlaklık ayarlandı: %100");
}

#[test]
fn brightness_ratio_has_two_decimals() {
    let prefix = "xrandr --output $(xrandr | grep ' connected' | awk '{print $1}' | head -n1) --brightness ";
    assert_eq!(brightness_command(5).args[1], format!("{}0.20", prefix));
    assert_eq!(brightness_command(37).args[1], format!("{}0.37", prefix));
    assert_eq!(brightness_command(100).args[1], format!("{}1.00", prefix));
    for level in 20u32..=100 {
        let expected = format!("{}{:.2}", prefix, level as f32 / 100.0);
        assert_eq!(brightness_command(level).args[1], expected);
    }
}
