use commands_applet::command::{
    detached_command_line, direct_launch, edit_command, escape_quotes, terminal_command,
    terminal_launches, Launch,
};

const SCRIPT_TAIL: &str = "; status=$?; [ $status -ne 0 ] && read -p 'Error...'; exec bash";

fn launch(program: &str, args: &[&str]) -> (String, Vec<String>) {
    (program.to_string(), args.iter().map(|a| a.to_string()).collect())
}

fn parts(l: &Launch) -> (String, Vec<String>) {
    (l.program.clone(), l.args.clone())
}

#[test]
fn escape_quotes_replaces_each_quote() {
    assert_eq!(escape_quotes("echo 'hi'"), "echo '\\''hi'\\''");
    assert_eq!(escape_quotes("plain"), "plain");
    assert_eq!(escape_quotes(""), "");
    assert_eq!(escape_quotes("'"), "'\\''");
}

#[test]
fn escape_quotes_agrees_with_str_replace() {
    for s in ["it's", "a'b'c", "''", "ünï'cødé", "x"] {
        assert_eq!(escape_quotes(s), s.replace('\'', "'\\''"));
    }
}

#[test]
fn detached_line_wraps_command() {
    assert_eq!(
        detached_command_line("firefox"),
        "setsid sh -c 'firefox' >/dev/null 2>&1 < /dev/null &"
    );
    assert_eq!(
        detached_command_line("echo 'x'"),
        "setsid sh -c 'echo '\\''x'\\''' >/dev/null 2>&1 < /dev/null &"
    );
}

#[test]
fn direct_launch_uses_sh_c() {
    let l = direct_launch("nautilus");
    assert_eq!(
        parts(&l),
        launch("sh", &["-c", "setsid sh -c 'nautilus' >/dev/null 2>&1 < /dev/null &"])
    );
}

#[test]
fn terminal_script_pauses_on_error() {
    assert_eq!(terminal_command("htop"), format!("htop{}", SCRIPT_TAIL));
}

#[test]
fn gnome_terminal_only() {
    let plan = terminal_launches("gnome-terminal", "htop");
    let script = format!("htop{}", SCRIPT_TAIL);
    assert_eq!(plan.len(), 1);
    assert_eq!(parts(&plan[0]), launch("gnome-terminal", &["--", "bash", "-c", &script]));
}

#[test]
fn xterm_only() {
    let plan = terminal_launches("xterm", "htop");
    let script = format!("htop{}", SCRIPT_TAIL);
    assert_eq!(plan.len(), 1);
    assert_eq!(parts(&plan[0]), launch("xterm", &["-e", &script]));
}

#[test]
fn konsole_only() {
    let plan = terminal_launches("konsole", "htop");
    let script = format!("htop{}", SCRIPT_TAIL);
    assert_eq!(plan.len(), 1);
    assert_eq!(parts(&plan[0]), launch("konsole", &["-e", &script]));
}

#[test]
fn auto_tries_all_in_order() {
    let script = format!("htop{}", SCRIPT_TAIL);
    for setting in ["auto", "alacritty", ""] {
        let plan = terminal_launches(setting, "htop");
        let got: Vec<_> = plan.iter().map(parts).collect();
        assert_eq!(
            got,
            vec![
                launch("gnome-terminal", &["--", "bash", "-c", &script]),
                launch("xterm", &["-e", &script]),
                launch("konsole", &["-e", &script]),
            ]
        );
    }
}

#[test]
fn edit_command_opens_nano() {
    assert_eq!(
        edit_command("/home/u/.config/commands-applet/commands.json"),
        "nano /home/u/.config/commands-applet/commands.json; exit"
    );
}

/// How a POSIX shell reads one word made of single-quoted stretches and
/// backslash escapes.
fn read_shell_word(word: &str) -> String {
    let mut out = String::new();
    let mut quoted = false;
    let mut chars = word.chars().peekable();
    while let Some(c) = chars.next() {
        if quoted {
            if c == '\'' {
                quoted = false;
            } else {
                out.push(c);
            }
        } else if c == '\'' {
            quoted = true;
        } else if c == '\\' && chars.peek().is_some() {
            out.push(chars.next().unwrap());
        } else {
            out.push(c);
        }
    }
    out
}

#[test]
fn detached_line_reads_back_as_command() {
    for cmd in ["firefox", "echo 'a b'", "it's", "''", "notify-send 'ação'"] {
        let line = detached_command_line(cmd);
        let word = line
            .strip_prefix("setsid sh -c ")
            .and_then(|r| r.strip_suffix(" >/dev/null 2>&1 < /dev/null &"))
            .expect("shape");
        assert_eq!(read_shell_word(word), cmd);
    }
}

use commands_applet::command::{after_attempt, first_attempt, AttemptStep};

/// The positions tried, and how it ended, when launch `k` starts exactly if `starts[k]`.
fn drive(starts: &[bool]) -> (Vec<usize>, AttemptStep) {
    let mut tried = Vec::new();
    let mut step = first_attempt(starts.len());
    loop {
        match step {
            AttemptStep::Try(i) => {
                tried.push(i);
                step = after_attempt(starts.len(), i, starts[i]);
            }
            other => return (tried, other),
        }
    }
}

#[test]
fn attempts_stop_at_first_start() {
    assert_eq!(drive(&[true, true, true]), (vec![0], AttemptStep::Started));
    assert_eq!(drive(&[false, true, true]), (vec![0, 1], AttemptStep::Started));
    assert_eq!(drive(&[false, false, true]), (vec![0, 1, 2], AttemptStep::Started));
}

#[test]
fn attempts_exhausted_report_no_terminal() {
    assert_eq!(drive(&[false, false, false]), (vec![0, 1, 2], AttemptStep::NoTerminal));
    assert_eq!(drive(&[false]), (vec![0], AttemptStep::NoTerminal));
    assert_eq!(drive(&[]), (vec![], AttemptStep::NoTerminal));
}

#[test]
fn after_attempt_out_of_range() {
    assert_eq!(after_attempt(3, 7, false), AttemptStep::NoTerminal);
    assert_eq!(after_attempt(3, 2, false), AttemptStep::NoTerminal);
    assert_eq!(after_attempt(3, 0, true), AttemptStep::Started);
}
