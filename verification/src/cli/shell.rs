//! `shell`: the command line a shell runs, and the `PATH` it gets.
use vstd::prelude::*;
use crate::text::{
    views, owned, cat, contains_seq, contains_str, replace_seq, replace_str, join_seq, join_strings,
};
use crate::command::NixCommand;

verus! {

/// Options of `shell`.
pub struct ShellArgs {
    /// Installables whose packages the shell gets.
    pub installables: Vec<String>,
    /// Command to run in the shell.
    pub command: Option<String>,
    /// Interpreter for a script (shebang mode).
    pub interpreter: Option<String>,
    /// Script run by the interpreter.
    pub script: Option<String>,
    /// Arguments of the script.
    pub script_args: Vec<String>,
}

/// An argument needs quoting when it holds a space or a quote.
pub open spec fn needs_quotes(a: Seq<char>) -> bool {
    contains_seq(a, seq![' ']) || contains_seq(a, seq!['\'']) || contains_seq(a, seq!['"'])
}

/// An argument as the shell reads it back: in single quotes, with each `'`
/// written `'\''`, when it needs quoting.
pub open spec fn shell_quote(a: Seq<char>) -> Seq<char> {
    if needs_quotes(a) {
        seq!['\''] + replace_seq(a, seq!['\''], seq!['\'', '\\', '\'', '\'']) + seq!['\'']
    } else {
        a
    }
}

/// The command line that runs `script` with `interpreter`.
pub open spec fn interpreter_line(i: Seq<char>, s: Seq<char>, args: Seq<Seq<char>>) -> Seq<char> {
    join_seq((seq![i, s] + args).map_values(|a: Seq<char>| shell_quote(a)), seq![' '])
}

/// A text of one character.
fn char_text(c: char) -> (r: String)
    ensures
        r@ == seq![c],
{
    let mut r = String::new();
    crate::text::push_char(&mut r, c);
    assert(r@ =~= seq![c]);
    r
}

/// An argument quoted for the shell when it needs it.
pub fn quote_arg(a: &str) -> (r: String)
    ensures
        r@ == shell_quote(a@),
{
    let sp = char_text(' ');
    let q = char_text('\'');
    let dq = char_text('"');
    if contains_str(a, sp.as_str()) || contains_str(a, q.as_str()) || contains_str(a, dq.as_str()) {
        let mut esc = String::new();
        crate::text::push_char(&mut esc, '\'');
        crate::text::push_char(&mut esc, '\\');
        crate::text::push_char(&mut esc, '\'');
        crate::text::push_char(&mut esc, '\'');
        assert(esc@ =~= seq!['\'', '\\', '\'', '\'']);
        let body = replace_str(a, q.as_str(), esc.as_str());
        let mut r = owned(q.as_str());
        r.append(body.as_str());
        r.append(q.as_str());
        r
    } else {
        owned(a)
    }
}

/// The command line that runs `script` with `interpreter` and the script's
/// arguments, each quoted when it needs it.
pub fn build_interpreter_command(interpreter: &str, script: &str, script_args: &Vec<String>) -> (r: String)
    ensures
        r@ == interpreter_line(interpreter@, script@, views(script_args@)),
{
    let ghost all = seq![interpreter@, script@] + views(script_args@);
    let mut parts: Vec<String> = Vec::new();
    parts.push(quote_arg(interpreter));
    parts.push(quote_arg(script));
    assert(views(parts@) =~= all.take(2).map_values(|a: Seq<char>| shell_quote(a)));
    let n = script_args.len();
    for i in 0..n
        invariant
            n == script_args@.len(),
            all == seq![interpreter@, script@] + views(script_args@),
            views(parts@) == all.take(i + 2).map_values(|a: Seq<char>| shell_quote(a)),
    {
        let ghost before = views(parts@);
        parts.push(quote_arg(script_args[i].as_str()));
        assert(all[i + 2] == script_args@[i as int]@);
        assert(views(parts@) =~= before.push(shell_quote(all[i + 2])));
        assert(all.take(i + 3) =~= all.take(i + 2).push(all[i + 2]));
        assert(views(parts@) =~= all.take(i + 3).map_values(|a: Seq<char>| shell_quote(a)));
    }
    assert(all.take(n + 2) =~= all);
    let sp = char_text(' ');
    join_strings(&parts, sp.as_str())
}

/// The command a shell runs: with an interpreter, the interpreter running
/// the script (or the interpreter alone without a script); else the
/// `--command` given.
pub open spec fn effective_command_spec(a: ShellArgs) -> Option<Seq<char>> {
    match a.interpreter {
        Some(i) => match a.script {
            Some(s) => Some(interpreter_line(i@, s@, views(a.script_args@))),
            None => Some(i@),
        },
        None => match a.command {
            Some(c) => Some(c@),
            None => None,
        },
    }
}

/// The command a shell runs, if any.
pub fn effective_command(args: &ShellArgs) -> (r: Option<String>)
    ensures
        match r {
            Some(c) => effective_command_spec(*args) == Some(c@),
            None => effective_command_spec(*args).is_none(),
        },
{
    match &args.interpreter {
        Some(i) => match &args.script {
            Some(s) => Some(build_interpreter_command(i.as_str(), s.as_str(), &args.script_args)),
            None => Some(owned(i.as_str())),
        },
        None => match &args.command {
            Some(c) => Some(owned(c.as_str())),
            None => None,
        },
    }
}

/// `nix shell` with the installables, and `--command` when there is one.
pub fn remote_shell_command(installables: &Vec<String>, command: &Option<String>) -> (r: NixCommand)
    ensures
        r.prog() == "nix"@,
        r.argv() == seq!["shell"@] + views(installables@) + match command {
            Some(c) => seq!["--command"@, c@],
            None => Seq::empty(),
        },
{
    let mut cmd = NixCommand::new("nix");
    cmd.arg("shell");
    cmd.args(installables);
    match command {
        Some(c) => {
            cmd.arg("--command");
            cmd.arg(c.as_str());
        },
        None => {},
    }
    assert(cmd.argv() =~= seq!["shell"@] + views(installables@) + match command {
        Some(c) => seq!["--command"@, c@],
        None => Seq::<Seq<char>>::empty(),
    });
    cmd
}

/// Why a shell cannot start.
pub enum ShellError {
    /// None of the packages has a `bin` directory.
    NoBinDirectories,
}

impl ShellError {
    /// The error's text.
    pub fn message(&self) -> (r: String)
        ensures
            r@ == "No bin directories found in packages"@,
    {
        String::from_str("No bin directories found in packages")
    }
}

/// The `PATH` of the shell: the `bin` directories, then the old `PATH` when
/// it is not empty, joined with `:`.
pub open spec fn shell_path_spec(bins: Seq<Seq<char>>, old_path: Seq<char>) -> Seq<char> {
    join_seq(
        if old_path.len() > 0 {
            bins.push(old_path)
        } else {
            bins
        },
        seq![':'],
    )
}

/// The `PATH` of the shell; refused when no package has a `bin` directory.
pub fn shell_path(bin_paths: &Vec<String>, old_path: &str) -> (r: Result<String, ShellError>)
    ensures
        bin_paths@.len() == 0 ==> r matches Err(ShellError::NoBinDirectories),
        bin_paths@.len() > 0 ==> (r matches Ok(p) && p@ == shell_path_spec(views(bin_paths@), old_path@)),
{
    if bin_paths.len() == 0 {
        return Err(ShellError::NoBinDirectories);
    }
    let mut parts: Vec<String> = Vec::new();
    let n = bin_paths.len();
    for i in 0..n
        invariant
            n == bin_paths@.len(),
            views(parts@) == views(bin_paths@).take(i as int),
    {
        let ghost before = views(parts@);
        parts.push(owned(bin_paths[i].as_str()));
        assert(views(parts@) =~= before.push(bin_paths@[i as int]@));
        assert(views(bin_paths@).take(i + 1) =~= views(bin_paths@).take(i as int).push(bin_paths@[i as int]@));
    }
    assert(views(bin_paths@).take(n as int) =~= views(bin_paths@));
    if old_path.unicode_len() > 0 {
        let ghost before = views(parts@);
        parts.push(owned(old_path));
        assert(views(parts@) =~= before.push(old_path@));
    }
    let colon = char_text(':');
    Ok(join_strings(&parts, colon.as_str()))
}

/// The message of a command that failed with exit code `code` (1 when it
/// has none).
pub fn exit_failure_message(code: Option<i32>) -> (r: String)
    ensures
        r@ == "Command failed with exit code: "@ + crate::numtext::signed_decimal(
            match code {
                Some(c) => c as int,
                None => 1,
            },
        ),
{
    let c: i32 = match code {
        Some(c) => c,
        None => 1,
    };
    let t = crate::numtext::i64_text(c as i64);
    cat("Command failed with exit code: ", t.as_str())
}

} // verus!
