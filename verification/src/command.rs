//! The command lines that run a menu entry, directly or in a terminal emulator.

use vstd::prelude::*;
use crate::text::{chars_of, push_char};

verus! {

/// A program to start, with its arguments.
pub struct Launch {
    pub program: String,
    pub args: Vec<String>,
}

/// A launch, with strings taken as character sequences.
pub struct LaunchView {
    pub program: Seq<char>,
    pub args: Seq<Seq<char>>,
}

/// The views of a sequence of strings.
pub open spec fn strings_view(v: Seq<String>) -> Seq<Seq<char>> {
    v.map_values(|s: String| s@)
}

impl View for Launch {
    type V = LaunchView;

    open spec fn view(&self) -> LaunchView {
        LaunchView { program: self.program@, args: strings_view(self.args@) }
    }
}

/// The views of a sequence of launches.
pub open spec fn launches_view(v: Seq<Launch>) -> Seq<LaunchView> {
    v.map_values(|l: Launch| l@)
}

/// What stands for one `'` inside a single-quoted shell word: close the
/// quote, an escaped quote, open the quote again.
pub open spec fn quote_escape() -> Seq<char> {
    seq!['\'', '\\', '\'', '\'']
}

/// `s` with every `'` replaced by `'\''`.
pub open spec fn escape_single_quotes(s: Seq<char>) -> Seq<char>
    decreases s.len(),
{
    if s.len() == 0 {
        Seq::<char>::empty()
    } else {
        escape_single_quotes(s.drop_last()) + if s.last() == '\'' {
            quote_escape()
        } else {
            seq![s.last()]
        }
    }
}

/// The shell line that runs `command` detached from the applet, with no
/// terminal and its input and output discarded.
pub open spec fn detached_line(command: Seq<char>) -> Seq<char> {
    "setsid sh -c '"@ + escape_single_quotes(command) + "' >/dev/null 2>&1 < /dev/null &"@
}

/// The shell script run inside a terminal: the command, a pause on failure,
/// then an interactive shell.
pub open spec fn terminal_script(command: Seq<char>) -> Seq<char> {
    command + "; status=$?; [ $status -ne 0 ] && read -p 'Error...'; exec bash"@
}

/// The command that opens the configuration file at `path` in an editor.
pub open spec fn edit_script(path: Seq<char>) -> Seq<char> {
    "nano "@ + path + "; exit"@
}

/// Starting GNOME Terminal on a script.
pub open spec fn gnome_launch(script: Seq<char>) -> LaunchView {
    LaunchView { program: "gnome-terminal"@, args: seq!["--"@, "bash"@, "-c"@, script] }
}

/// Starting xterm on a script.
pub open spec fn xterm_launch(script: Seq<char>) -> LaunchView {
    LaunchView { program: "xterm"@, args: seq!["-e"@, script] }
}

/// Starting Konsole on a script.
pub open spec fn konsole_launch(script: Seq<char>) -> LaunchView {
    LaunchView { program: "konsole"@, args: seq!["-e"@, script] }
}

/// The terminals to try, in order, until one starts: the one named by the
/// setting, or, for `"auto"` and any other value, GNOME Terminal, xterm and Konsole.
pub open spec fn terminal_plan(terminal: Seq<char>, command: Seq<char>) -> Seq<LaunchView> {
    let script = terminal_script(command);
    if terminal == "gnome-terminal"@ {
        seq![gnome_launch(script)]
    } else if terminal == "xterm"@ {
        seq![xterm_launch(script)]
    } else if terminal == "konsole"@ {
        seq![konsole_launch(script)]
    } else {
        seq![gnome_launch(script), xterm_launch(script), konsole_launch(script)]
    }
}

/// The script run in a terminal is the configured command, unchanged,
/// followed by the pause-on-error tail: nothing in the command is escaped
/// or rewritten, since `bash -c` and `-e` take the script as one argument.
pub proof fn law_terminal_script_keeps_command(command: Seq<char>)
    ensures
        terminal_script(command).take(command.len() as int) == command,
        terminal_script(command).skip(command.len() as int)
            == "; status=$?; [ $status -ne 0 ] && read -p 'Error...'; exec bash"@,
{
    let tail = "; status=$?; [ $status -ne 0 ] && read -p 'Error...'; exec bash"@;
    assert((command + tail).take(command.len() as int) =~= command);
    assert((command + tail).skip(command.len() as int) =~= tail);
}

/// Every terminal of the plan is handed the script as its last argument,
/// so each one runs the configured command unchanged; the plan is never empty.
pub proof fn law_every_launch_runs_the_command(terminal: Seq<char>, command: Seq<char>)
    ensures
        terminal_plan(terminal, command).len() >= 1,
        forall|k: int|
            0 <= k < terminal_plan(terminal, command).len() ==> {
                let args = #[trigger] terminal_plan(terminal, command)[k].args;
                &&& args.len() >= 2
                &&& args.last().take(command.len() as int) == command
            },
{
    law_terminal_script_keeps_command(command);
}

/// Which terminals are tried, in order, and with which arguments: the one
/// named by the setting alone (`gnome-terminal` with `-- bash -c`, `xterm`
/// or `konsole` with `-e`), and for `auto` or any other value all three, in
/// the order GNOME Terminal, xterm, Konsole.
pub proof fn law_terminal_order(terminal: Seq<char>, command: Seq<char>)
    ensures
        ({
            let plan = terminal_plan(terminal, command);
            let script = terminal_script(command);
            let gnome = LaunchView { program: "gnome-terminal"@, args: seq!["--"@, "bash"@, "-c"@, script] };
            let xterm = LaunchView { program: "xterm"@, args: seq!["-e"@, script] };
            let konsole = LaunchView { program: "konsole"@, args: seq!["-e"@, script] };
            &&& terminal == "gnome-terminal"@ ==> plan == seq![gnome]
            &&& terminal == "xterm"@ ==> plan == seq![xterm]
            &&& terminal == "konsole"@ ==> plan == seq![konsole]
            &&& (terminal != "gnome-terminal"@ && terminal != "xterm"@ && terminal != "konsole"@)
                ==> plan == seq![gnome, xterm, konsole]
        }),
{
    let plan = terminal_plan(terminal, command);
    let script = terminal_script(command);
    let gnome = LaunchView { program: "gnome-terminal"@, args: seq!["--"@, "bash"@, "-c"@, script] };
    let xterm = LaunchView { program: "xterm"@, args: seq!["-e"@, script] };
    let konsole = LaunchView { program: "konsole"@, args: seq!["-e"@, script] };
    assert(gnome_launch(script) == gnome);
    assert(xterm_launch(script) == xterm);
    assert(konsole_launch(script) == konsole);
    reveal_strlit("gnome-terminal");
    reveal_strlit("xterm");
    reveal_strlit("konsole");
    assert("gnome-terminal"@ != "xterm"@ && "gnome-terminal"@ != "konsole"@ && "xterm"@ != "konsole"@) by {
        assert("gnome-terminal"@.len() != "xterm"@.len());
        assert("gnome-terminal"@.len() != "konsole"@.len());
        assert("xterm"@[0] != "konsole"@[0]);
    }
    if terminal == "gnome-terminal"@ {
        assert(plan =~= seq![gnome]);
    } else if terminal == "xterm"@ {
        assert(plan =~= seq![xterm]);
    } else if terminal == "konsole"@ {
        assert(plan =~= seq![konsole]);
    } else {
        assert(plan =~= seq![gnome, xterm, konsole]);
    }
}

/// The edit command opens the configuration path, unchanged, in `nano`, and
/// leaves the terminal when the editor exits.
pub proof fn law_edit_script_keeps_path(path: Seq<char>)
    ensures
        edit_script(path).take(5) == "nano "@,
        edit_script(path).subrange(5, 5 + path.len() as int) == path,
        edit_script(path).skip(5 + path.len() as int) == "; exit"@,
{
    reveal_strlit("nano ");
    let e = edit_script(path);
    assert(e.take(5) =~= "nano "@);
    assert(e.subrange(5, 5 + path.len() as int) =~= path);
    assert(e.skip(5 + path.len() as int) =~= "; exit"@);
}

/// What a POSIX shell makes of `s` as one word: `'` opens and closes a quoted
/// stretch in which every character stands for itself, and outside quotes a
/// `\` makes the character after it stand for itself. `quoted` says whether
/// `s` starts inside quotes.
pub open spec fn shell_word(s: Seq<char>, quoted: bool) -> Seq<char>
    decreases s.len(),
{
    if s.len() == 0 {
        Seq::<char>::empty()
    } else if quoted {
        if s[0] == '\'' {
            shell_word(s.drop_first(), false)
        } else {
            seq![s[0]] + shell_word(s.drop_first(), true)
        }
    } else if s[0] == '\'' {
        shell_word(s.drop_first(), true)
    } else if s[0] == '\\' && s.len() >= 2 {
        seq![s[1]] + shell_word(s.skip(2), false)
    } else {
        seq![s[0]] + shell_word(s.drop_first(), false)
    }
}

/// Escaping works piece by piece.
pub proof fn lemma_escape_concat(a: Seq<char>, b: Seq<char>)
    ensures
        escape_single_quotes(a + b) == escape_single_quotes(a) + escape_single_quotes(b),
    decreases b.len(),
{
    if b.len() == 0 {
        assert(a + b =~= a);
        assert(escape_single_quotes(b) =~= Seq::<char>::empty());
        assert(escape_single_quotes(a) + escape_single_quotes(b) =~= escape_single_quotes(a));
    } else {
        lemma_escape_concat(a, b.drop_last());
        assert((a + b).drop_last() =~= a + b.drop_last());
        assert((a + b).last() == b.last());
        let tail = if b.last() == '\'' {
            quote_escape()
        } else {
            seq![b.last()]
        };
        assert(escape_single_quotes(a) + escape_single_quotes(b.drop_last()) + tail
            =~= escape_single_quotes(a) + (escape_single_quotes(b.drop_last()) + tail));
    }
}

/// Inside quotes, an escaped text reads back as the text itself.
pub proof fn lemma_escaped_reads_back(c: Seq<char>, t: Seq<char>)
    ensures
        shell_word(escape_single_quotes(c) + t, true) == c + shell_word(t, true),
    decreases c.len(),
{
    if c.len() == 0 {
        assert(escape_single_quotes(c) + t =~= t);
        assert(c + shell_word(t, true) =~= shell_word(t, true));
    } else {
        let head = seq![c[0]];
        let rest = c.drop_first();
        assert(head + rest =~= c);
        lemma_escape_concat(head, rest);
        lemma_escaped_reads_back(rest, t);
        assert(head.drop_last() =~= Seq::<char>::empty());
        assert(escape_single_quotes(Seq::<char>::empty()) =~= Seq::<char>::empty());
        assert(escape_single_quotes(head) =~= escape_single_quotes(head.drop_last()) + (if c[0]
            == '\'' {
            quote_escape()
        } else {
            head
        }));
        let x = escape_single_quotes(rest) + t;
        if c[0] == '\'' {
            assert(escape_single_quotes(head) == quote_escape());
            let s = quote_escape() + x;
            assert(escape_single_quotes(c) + t =~= s);
            let s1 = s.drop_first();
            assert(s1 =~= seq!['\\', '\'', '\''] + x);
            assert(s1.skip(2) =~= seq!['\''] + x);
            assert((seq!['\''] + x).drop_first() =~= x);
            assert(shell_word(s1.skip(2), false) == shell_word(x, true));
            assert(shell_word(s1, false) == seq!['\''] + shell_word(x, true));
            assert(shell_word(s, true) == shell_word(s1, false));
            assert(seq!['\''] + (rest + shell_word(t, true)) =~= c + shell_word(t, true));
        } else {
            assert(escape_single_quotes(head) == head);
            let s = head + x;
            assert(escape_single_quotes(c) + t =~= s);
            assert(s.drop_first() =~= x);
            assert(head + (rest + shell_word(t, true)) =~= c + shell_word(t, true));
        }
    }
}

/// The detached line hands the shell exactly the configured command: the
/// word after `sh -c` in it reads back as the command, whatever quotes the
/// command holds.
pub proof fn law_detached_line_keeps_command(command: Seq<char>)
    ensures
        detached_line(command) == "setsid sh -c "@ + (seq!['\''] + escape_single_quotes(command)
            + seq!['\'']) + " >/dev/null 2>&1 < /dev/null &"@,
        shell_word(seq!['\''] + escape_single_quotes(command) + seq!['\''], false) == command,
{
    reveal_strlit("setsid sh -c '");
    reveal_strlit("setsid sh -c ");
    reveal_strlit("' >/dev/null 2>&1 < /dev/null &");
    reveal_strlit(" >/dev/null 2>&1 < /dev/null &");
    assert(detached_line(command) =~= "setsid sh -c "@ + (seq!['\''] + escape_single_quotes(
        command,
    ) + seq!['\'']) + " >/dev/null 2>&1 < /dev/null &"@);
    let e = escape_single_quotes(command);
    let word = seq!['\''] + e + seq!['\''];
    assert(word.drop_first() =~= e + seq!['\'']);
    lemma_escaped_reads_back(command, seq!['\'']);
    assert(seq!['\''].drop_first() =~= Seq::<char>::empty());
    assert(shell_word(Seq::<char>::empty(), false) =~= Seq::<char>::empty());
    assert(shell_word(seq!['\''], true) =~= Seq::<char>::empty());
    assert(command + Seq::<char>::empty() =~= command);
}

/// `command` with every `'` replaced by `'\''`, so that it can stand
/// between single quotes in a shell line.
pub fn escape_quotes(command: &str) -> (res: String)
    ensures
        res@ == escape_single_quotes(command@),
{
    let cs = chars_of(command);
    let mut res = String::new();
    for i in 0..cs.len()
        invariant
            cs@ == command@,
            res@ == escape_single_quotes(cs@.take(i as int)),
    {
        let c = cs[i];
        assert(cs@.take(i + 1).drop_last() =~= cs@.take(i as int));
        if c == '\'' {
            push_char(&mut res, '\'');
            push_char(&mut res, '\\');
            push_char(&mut res, '\'');
            push_char(&mut res, '\'');
        } else {
            push_char(&mut res, c);
        }
        assert(res@ =~= escape_single_quotes(cs@.take(i + 1)));
    }
    assert(cs@.take(cs.len() as int) =~= cs@);
    res
}

/// The shell line that runs `command` detached, with no terminal.
pub fn detached_command_line(command: &str) -> (res: String)
    ensures
        res@ == detached_line(command@),
{
    let mut res = String::from_str("setsid sh -c '");
    let escaped = escape_quotes(command);
    res.append(escaped.as_str());
    res.append("' >/dev/null 2>&1 < /dev/null &");
    res
}

/// How to run `command` without a terminal: `sh -c` on the detached line.
pub fn direct_launch(command: &str) -> (res: Launch)
    ensures
        res@ == (LaunchView { program: "sh"@, args: seq!["-c"@, detached_line(command@)] }),
{
    let mut args: Vec<String> = Vec::new();
    args.push(String::from_str("-c"));
    args.push(detached_command_line(command));
    let res = Launch { program: String::from_str("sh"), args };
    assert(strings_view(res.args@) =~= seq!["-c"@, detached_line(command@)]);
    res
}

/// The script run inside a terminal for `command`.
pub fn terminal_command(command: &str) -> (res: String)
    ensures
        res@ == terminal_script(command@),
        res@.take(command@.len() as int) == command@,
        res@.skip(command@.len() as int) == "; status=$?; [ $status -ne 0 ] && read -p 'Error...'; exec bash"@,
{
    let mut res = String::from_str(command);
    res.append("; status=$?; [ $status -ne 0 ] && read -p 'Error...'; exec bash");
    res
}

/// The command that opens the configuration file at `path` in an editor.
pub fn edit_command(path: &str) -> (res: String)
    ensures
        res@ == edit_script(path@),
{
    let mut res = String::from_str("nano ");
    res.append(path);
    res.append("; exit");
    res
}

fn gnome(script: &String) -> (res: Launch)
    ensures
        res@ == gnome_launch(script@),
{
    let mut args: Vec<String> = Vec::new();
    args.push(String::from_str("--"));
    args.push(String::from_str("bash"));
    args.push(String::from_str("-c"));
    args.push(script.clone());
    let res = Launch { program: String::from_str("gnome-terminal"), args };
    assert(strings_view(res.args@) =~= seq!["--"@, "bash"@, "-c"@, script@]);
    res
}

fn with_dash_e(program: &str, script: &String) -> (res: Launch)
    ensures
        res@ == (LaunchView { program: program@, args: seq!["-e"@, script@] }),
{
    let mut args: Vec<String> = Vec::new();
    args.push(String::from_str("-e"));
    args.push(script.clone());
    let res = Launch { program: String::from_str(program), args };
    assert(strings_view(res.args@) =~= seq!["-e"@, script@]);
    res
}

/// The terminals to try, in order, to run `command` under the terminal setting `terminal`.
pub fn terminal_launches(terminal: &str, command: &str) -> (plan: Vec<Launch>)
    ensures
        launches_view(plan@) == terminal_plan(terminal@, command@),
{
    let script = terminal_command(command);
    let name = String::from_str(terminal);
    let mut plan: Vec<Launch> = Vec::new();
    if name == String::from_str("gnome-terminal") {
        plan.push(gnome(&script));
    } else if name == String::from_str("xterm") {
        plan.push(with_dash_e("xterm", &script));
    } else if name == String::from_str("konsole") {
        plan.push(with_dash_e("konsole", &script));
    } else {
        plan.push(gnome(&script));
        plan.push(with_dash_e("xterm", &script));
        plan.push(with_dash_e("konsole", &script));
    }
    assert(launches_view(plan@) =~= terminal_plan(terminal@, command@));
    plan
}

/// What to do next while starting a terminal from a plan of launches.
#[derive(Debug, PartialEq, Eq, Clone, Copy, Structural)]
pub enum AttemptStep {
    /// Try the launch at this position of the plan.
    Try(usize),
    /// A terminal started: stop.
    Started,
    /// Every launch of the plan failed: report that no terminal is available.
    NoTerminal,
}

/// The first step for a plan of `n` launches.
pub open spec fn first_step(n: nat) -> AttemptStep {
    if n > 0 {
        AttemptStep::Try(0)
    } else {
        AttemptStep::NoTerminal
    }
}

/// The step after trying launch `i` of a plan of `n`: stop once one starts,
/// otherwise try the next, and give up after the last.
pub open spec fn step_after(n: nat, i: nat, started: bool) -> AttemptStep {
    if started {
        AttemptStep::Started
    } else if i + 1 < n {
        AttemptStep::Try((i + 1) as usize)
    } else {
        AttemptStep::NoTerminal
    }
}

/// The launches tried, from position `i` of a plan of `n`, when launch `k`
/// starts exactly if `starts[k]`.
pub open spec fn tried_from(n: nat, starts: Seq<bool>, i: nat) -> Seq<nat>
    decreases n - i,
{
    if i >= n {
        Seq::<nat>::empty()
    } else {
        seq![i] + match step_after(n, i, starts[i as int]) {
            AttemptStep::Try(j) => if i < j {
                tried_from(n, starts, j as nat)
            } else {
                Seq::<nat>::empty()
            },
            _ => Seq::<nat>::empty(),
        }
    }
}

/// The step that ends the attempts from position `i`.
pub open spec fn final_step(n: nat, starts: Seq<bool>, i: nat) -> AttemptStep
    decreases n - i,
{
    if i >= n {
        AttemptStep::NoTerminal
    } else {
        match step_after(n, i, starts[i as int]) {
            AttemptStep::Try(j) => if i < j {
                final_step(n, starts, j as nat)
            } else {
                AttemptStep::NoTerminal
            },
            other => other,
        }
    }
}

/// The first step for a plan of `n` launches.
pub fn first_attempt(n: usize) -> (step: AttemptStep)
    ensures
        step == first_step(n as nat),
{
    if n > 0 {
        AttemptStep::Try(0)
    } else {
        AttemptStep::NoTerminal
    }
}

/// The step after trying launch `i` of a plan of `n` launches, given whether it started.
pub fn after_attempt(n: usize, i: usize, started: bool) -> (step: AttemptStep)
    ensures
        step == step_after(n as nat, i as nat, started),
{
    if started {
        AttemptStep::Started
    } else if i < n && i + 1 < n {
        AttemptStep::Try(i + 1)
    } else {
        AttemptStep::NoTerminal
    }
}

proof fn lemma_tried_until_started(n: nat, starts: Seq<bool>, i: nat, f: nat)
    requires
        starts.len() == n,
        n <= usize::MAX,
        i <= f < n,
        starts[f as int],
        forall|g: int| i <= g < f ==> !starts[g],
    ensures
        tried_from(n, starts, i) == Seq::new((f + 1 - i) as nat, |k: int| (i + k) as nat),
        final_step(n, starts, i) == AttemptStep::Started,
    decreases f - i,
{
    if i < f {
        assert(!starts[i as int]);
        lemma_tried_until_started(n, starts, i + 1, f);
    }
    assert(tried_from(n, starts, i) =~= Seq::new((f + 1 - i) as nat, |k: int| (i + k) as nat));
}

proof fn lemma_tried_none_started(n: nat, starts: Seq<bool>, i: nat)
    requires
        starts.len() == n,
        n <= usize::MAX,
        i <= n,
        forall|g: int| i <= g < n ==> !starts[g],
    ensures
        tried_from(n, starts, i) == Seq::new((n - i) as nat, |k: int| (i + k) as nat),
        final_step(n, starts, i) == AttemptStep::NoTerminal,
    decreases n - i,
{
    if i < n {
        assert(!starts[i as int]);
        lemma_tried_none_started(n, starts, i + 1);
    }
    assert(tried_from(n, starts, i) =~= Seq::new((n - i) as nat, |k: int| (i + k) as nat));
}

/// Starting a terminal tries the launches of the plan in order and stops at
/// the first that starts: following `first_attempt` and `after_attempt`, the
/// launches tried are positions `0..=f` when `f` is the first that starts,
/// ending in `Started`, and all positions, ending in `NoTerminal`, when none does.
pub proof fn law_attempts_stop_at_first_start(n: nat, starts: Seq<bool>, f: int)
    requires
        starts.len() == n,
        n <= usize::MAX,
    ensures
        0 <= f < n && starts[f] && (forall|g: int| 0 <= g < f ==> !starts[g]) ==> {
            &&& tried_from(n, starts, 0) == Seq::new((f + 1) as nat, |k: int| k as nat)
            &&& final_step(n, starts, 0) == AttemptStep::Started
        },
        (forall|g: int| 0 <= g < n ==> !starts[g]) ==> {
            &&& tried_from(n, starts, 0) == Seq::new(n, |k: int| k as nat)
            &&& final_step(n, starts, 0) == AttemptStep::NoTerminal
        },
        first_step(n) == AttemptStep::Try(0) <==> n > 0,
{
    if 0 <= f < n && starts[f] && (forall|g: int| 0 <= g < f ==> !starts[g]) {
        lemma_tried_until_started(n, starts, 0, f as nat);
        assert(Seq::new((f + 1 - 0) as nat, |k: int| (0 + k) as nat) =~= Seq::new((f + 1) as nat, |k: int| k as nat));
    }
    if forall|g: int| 0 <= g < n ==> !starts[g] {
        lemma_tried_none_started(n, starts, 0);
        assert(Seq::new((n - 0) as nat, |k: int| (0 + k) as nat) =~= Seq::new(n, |k: int| k as nat));
    }
}

} // verus!
