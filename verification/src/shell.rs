//! Commands handed to the operating system and what their results are
//! turned into: the terminal, application launching, the keyboard layout
//! and the screen brightness.
use vstd::prelude::*;

use crate::text::{decimal, push_decimal, trim, trim_text};
use crate::trusted::{text_from_bytes, utf8_lossy};

verus! {

/// A program to run and its arguments.
pub struct ShellCommand {
    pub program: String,
    pub args: Vec<String>,
}

impl View for ShellCommand {
    type V = (Seq<char>, Seq<Seq<char>>);

    open spec fn view(&self) -> (Seq<char>, Seq<Seq<char>>) {
        (self.program@, self.args.deep_view())
    }
}

/// What a finished process left: whether it exited successfully, and the
/// bytes it wrote to standard output and standard error.
pub struct ProcessOutput {
    pub success: bool,
    pub stdout: Vec<u8>,
    pub stderr: Vec<u8>,
}

/// The texts of a `Result` of strings.
pub open spec fn text_result(r: Result<String, String>) -> Result<Seq<char>, Seq<char>> {
    match r {
        Ok(t) => Ok(t@),
        Err(e) => Err(e@),
    }
}

/// A command of a program and two arguments.
pub fn command2(program: &str, a: &str, b: &str) -> (c: ShellCommand)
    ensures
        c@ == (program@, seq![a@, b@]),
{
    let mut args: Vec<String> = Vec::new();
    args.push(a.to_owned());
    args.push(b.to_owned());
    assert(args.deep_view() =~= seq![a@, b@]);
    ShellCommand { program: program.to_owned(), args }
}

// ---------------------------------------------------------------------------
// Terminal
// ---------------------------------------------------------------------------

/// What the user typed into the terminal, trimmed; `None` when that leaves
/// nothing, in which case nothing is run and the answer is an empty text.
pub fn terminal_command(command: &str) -> (r: Option<String>)
    ensures
        match r {
            Some(c) => trim(command@).len() > 0 && c@ == trim(command@),
            None => trim(command@).len() == 0,
        },
{
    let c = trim_text(command);
    if c.as_str().is_empty() {
        None
    } else {
        Some(c)
    }
}

/// The shell that runs a terminal command: `cmd /C` on Windows, `bash -c`
/// elsewhere.
pub fn terminal_invocation(command: &str, on_windows: bool) -> (c: ShellCommand)
    ensures
        c@ == (if on_windows {
            ("cmd"@, seq!["/C"@, command@])
        } else {
            ("bash"@, seq!["-c"@, command@])
        }),
{
    if on_windows {
        command2("cmd", "/C", command)
    } else {
        command2("bash", "-c", command)
    }
}

/// The answer to a terminal command: its standard output when it succeeded,
/// or when it failed without writing anything but white space to standard
/// error; else the text of standard error as the error. A shell that could
/// not be started gives an error naming the reason.
pub open spec fn terminal_answer(run: Result<ProcessOutput, String>) -> Result<Seq<char>, Seq<char>> {
    match run {
        Ok(out) => {
            let so = utf8_lossy(out.stdout@);
            let se = utf8_lossy(out.stderr@);
            if out.success {
                Ok(so)
            } else if trim(se).len() > 0 {
                Err(se)
            } else {
                Ok(so)
            }
        },
        Err(e) => Err("Kabuk başlatılamadı: "@ + e@),
    }
}

pub fn terminal_outcome(run: Result<ProcessOutput, String>) -> (r: Result<String, String>)
    ensures
        text_result(r) == terminal_answer(run),
{
    match run {
        Ok(out) => {
            let so = text_from_bytes(out.stdout.as_slice());
            let se = text_from_bytes(out.stderr.as_slice());
            if out.success {
                Ok(so)
            } else {
                let t = trim_text(se.as_str());
                if !t.as_str().is_empty() {
                    Err(se)
                } else {
                    Ok(so)
                }
            }
        },
        Err(e) => {
            let mut m = "Kabuk başlatılamadı: ".to_owned();
            m.append(e.as_str());
            Err(m)
        },
    }
}

// ---------------------------------------------------------------------------
// Launching applications and the keyboard layout
// ---------------------------------------------------------------------------

/// The shell command that starts a launcher's command line in the
/// background on display `:0`, silencing its output.
pub fn launch_command(exec: &str) -> (c: ShellCommand)
    ensures
        c@ == ("sh"@, seq!["-c"@, "DISPLAY=:0 "@ + trim(exec@) + " >/dev/null 2>&1 &"@]),
{
    let clean = trim_text(exec);
    let mut line = "DISPLAY=:0 ".to_owned();
    line.append(clean.as_str());
    line.append(" >/dev/null 2>&1 &");
    command2("sh", "-c", line.as_str())
}

/// The answer after starting a launcher.
pub fn launch_message(exec: &str) -> (m: String)
    ensures
        m@ == "Uygulama çalıştırıldı: "@ + trim(exec@),
{
    let clean = trim_text(exec);
    let mut m = "Uygulama çalıştırıldı: ".to_owned();
    m.append(clean.as_str());
    m
}

/// The command that switches the keyboard layout.
pub fn keyboard_command(layout: &str) -> (c: ShellCommand)
    ensures
        c@ == ("setxkbmap"@, seq![trim(layout@)]),
{
    let clean = trim_text(layout);
    let mut args: Vec<String> = Vec::new();
    args.push(clean);
    assert(args.deep_view() =~= seq![trim(layout@)]);
    ShellCommand { program: "setxkbmap".to_owned(), args }
}

/// The answer after switching the keyboard layout.
pub fn keyboard_message(layout: &str) -> (m: String)
    ensures
        m@ == "Klavye: "@ + trim(layout@),
{
    let clean = trim_text(layout);
    let mut m = "Klavye: ".to_owned();
    m.append(clean.as_str());
    m
}

// ---------------------------------------------------------------------------
// Brightness
// ---------------------------------------------------------------------------

/// A brightness level held between 20 and 100 percent.
pub open spec fn clamp_brightness(level: u32) -> u32 {
    if level < 20 {
        20
    } else if level > 100 {
        100
    } else {
        level
    }
}

pub fn brightness_level(level: u32) -> (c: u32)
    ensures
        c == clamp_brightness(level),
        20 <= c <= 100,
{
    if level < 20 {
        20
    } else if level > 100 {
        100
    } else {
        level
    }
}

/// Law: a level that was held in range stays as it is when held again.
pub proof fn lemma_brightness_clamp_idempotent(level: u32)
    ensures
        20 <= clamp_brightness(level) <= 100,
        clamp_brightness(clamp_brightness(level)) == clamp_brightness(level),
        20 <= level <= 100 ==> clamp_brightness(level) == level,
{
}

/// The two-digit writing of `n < 100`, with a leading zero.
pub open spec fn two_digits(n: nat) -> Seq<char> {
    if n < 10 {
        "0"@ + decimal(n)
    } else {
        decimal(n)
    }
}

/// The fraction `level / 100` written with two decimals.
pub open spec fn brightness_ratio(level: u32) -> Seq<char> {
    decimal((level / 100) as nat) + "."@ + two_digits((level % 100) as nat)
}

/// The shell command that sets the brightness of the first connected output
/// to the held level, as a fraction with two decimals.
pub fn brightness_command(level: u32) -> (c: ShellCommand)
    ensures
        c@ == (
            "sh"@,
            seq![
                "-c"@,
                "xrandr --output $(xrandr | grep ' connected' | awk '{print $1}' | head -n1) --brightness "@
                    + brightness_ratio(clamp_brightness(level)),
            ],
        ),
{
    let c = brightness_level(level);
    let mut line = "xrandr --output $(xrandr | grep ' connected' | awk '{print $1}' | head -n1) --brightness ".to_owned();
    push_decimal(&mut line, (c / 100) as u64);
    line.append(".");
    let rest = c % 100;
    if rest < 10 {
        line.append("0");
    }
    push_decimal(&mut line, rest as u64);
    assert(line@ =~= "xrandr --output $(xrandr | grep ' connected' | awk '{print $1}' | head -n1) --brightness "@
        + brightness_ratio(c));
    command2("sh", "-c", line.as_str())
}

/// The answer after setting the brightness.
pub fn brightness_message(level: u32) -> (m: String)
    ensures
        m@ == "Parlaklık ayarlandı: %"@ + decimal(clamp_brightness(level) as nat),
{
    let c = brightness_level(level);
    let mut m = "Parlaklık ayarlandı: %".to_owned();
    push_decimal(&mut m, c as u64);
    m
}

} // verus!
