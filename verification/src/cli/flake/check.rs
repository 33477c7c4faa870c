//! `flake check`: the tally of the checks that were built.
use vstd::prelude::*;
use crate::text::{views, owned, cat};
use crate::numtext::decimal;
use crate::command::NixCommand;

verus! {

/// Options of `flake check`.
pub struct CheckArgs {
    /// Flake reference.
    pub flake_ref: String,
}

/// How many of the results passed.
pub open spec fn passed_count(rs: Seq<(String, bool)>) -> nat
    decreases rs.len(),
{
    if rs.len() == 0 {
        0
    } else {
        passed_count(rs.drop_last()) + if rs.last().1 {
            1nat
        } else {
            0nat
        }
    }
}

/// The line of each check, in order.
pub open spec fn check_lines(rs: Seq<(String, bool)>) -> Seq<Seq<char>>
    decreases rs.len(),
{
    if rs.len() == 0 {
        Seq::empty()
    } else {
        check_lines(rs.drop_last()).push(
            "checking "@ + rs.last().0@ + ": "@ + if rs.last().1 {
                "ok"@
            } else {
                "FAILED"@
            },
        )
    }
}

/// What `flake check` prints for the results of the checks (name and
/// whether its build succeeded): a line per check, a blank line, and the
/// tally.
pub open spec fn check_report(rs: Seq<(String, bool)>) -> Seq<Seq<char>> {
    let p = passed_count(rs);
    let f = rs.len() - p;
    check_lines(rs) + seq![Seq::empty(), decimal(p) + " passed, "@ + decimal(f as nat) + " failed"@]
}

proof fn lemma_passed_count_bound(rs: Seq<(String, bool)>)
    ensures
        passed_count(rs) <= rs.len(),
    decreases rs.len(),
{
    if rs.len() > 0 {
        lemma_passed_count_bound(rs.drop_last());
    }
}

/// What `flake check` prints, and how many checks failed.
pub fn check_report_lines(results: &Vec<(String, bool)>) -> (r: (Vec<String>, u64))
    ensures
        views(r.0@) == check_report(results@),
        r.1 as int == results@.len() - passed_count(results@),
{
    let n = results.len();
    let mut out: Vec<String> = Vec::new();
    let mut passed: u64 = 0;
    for i in 0..n
        invariant
            n == results@.len(),
            views(out@) == check_lines(results@.take(i as int)),
            passed as nat == passed_count(results@.take(i as int)),
            passed <= i,
    {
        assert(results@.take(i + 1).drop_last() =~= results@.take(i as int));
        assert(results@.take(i + 1).last() == results@[i as int]);
        proof { lemma_passed_count_bound(results@.take(i as int)); }
        let mut line = String::from_str("checking ");
        line.append(results[i].0.as_str());
        line.append(": ");
        if results[i].1 {
            line.append("ok");
            passed = passed + 1;
        } else {
            line.append("FAILED");
        }
        let ghost before = views(out@);
        out.push(line);
        assert(views(out@) =~= before.push(line@));
    }
    assert(results@.take(n as int) =~= results@);
    proof { lemma_passed_count_bound(results@); }
    let failed: u64 = n as u64 - passed;
    out.push(String::new());
    let mut t = crate::numtext::u64_text(passed);
    t.append(" passed, ");
    let ft = crate::numtext::u64_text(failed);
    t.append(ft.as_str());
    t.append(" failed");
    let ghost before = views(out@);
    out.push(t);
    assert(views(out@) =~= before.push(t@));
    (out, failed)
}

/// The error of a check run with failures.
pub fn failed_checks_message(failed: u64) -> (r: String)
    ensures
        r@ == decimal(failed as nat) + " check(s) failed"@,
{
    let mut t = crate::numtext::u64_text(failed);
    t.append(" check(s) failed");
    t
}

/// The line when the flake has no checks for `system`.
pub fn no_checks_message(system: &str) -> (r: String)
    ensures
        r@ == "No checks found for "@ + system@,
{
    cat("No checks found for ", system)
}

/// The `nix flake check` a remote flake is handed to.
pub fn remote_check_command(installable: &str) -> (r: NixCommand)
    ensures
        r.prog() == "nix"@,
        r.argv() == seq!["--extra-experimental-features"@, "nix-command flakes"@, "flake"@, "check"@, installable@],
{
    let mut cmd = NixCommand::new("nix");
    cmd.arg("--extra-experimental-features");
    cmd.arg("nix-command flakes");
    cmd.arg("flake");
    cmd.arg("check");
    cmd.arg(installable);
    assert(cmd.argv() =~= seq!["--extra-experimental-features"@, "nix-command flakes"@, "flake"@, "check"@, installable@]);
    cmd
}

/// The `nix build` of one check derivation.
pub fn check_build_command(drv_path: &str) -> (r: NixCommand)
    ensures
        r.prog() == "nix"@,
        r.argv() == seq!["build"@, drv_path@ + "^*"@, "--no-link"@],
{
    let mut cmd = NixCommand::new("nix");
    cmd.arg("build");
    let i = cat(drv_path, "^*");
    cmd.arg(i.as_str());
    cmd.arg("--no-link");
    assert(cmd.argv() =~= seq!["build"@, drv_path@ + "^*"@, "--no-link"@]);
    cmd
}

} // verus!
