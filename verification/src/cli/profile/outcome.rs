//! What `profile add`, `remove`, `upgrade` and `wipe-history` report once
//! the profile was changed.
use vstd::prelude::*;
use crate::text::cat;
use crate::numtext::{decimal, u64_text};

verus! {

/// The line after installing the package `name`.
pub fn added_message(name: &str) -> (r: String)
    ensures
        r@ == "Added "@ + name@,
{
    cat("Added ", name)
}

/// The line after asking to remove `name`: on standard output when it was
/// removed, else on standard error.
pub fn removal_message(name: &str, removed: bool) -> (r: String)
    ensures
        removed ==> r@ == "Removed: "@ + name@,
        !removed ==> r@ == "Package not found: "@ + name@,
{
    if removed {
        cat("Removed: ", name)
    } else {
        cat("Package not found: ", name)
    }
}

/// The line after an upgrade that upgraded `upgraded` packages and found
/// `skipped` up to date.
pub open spec fn upgrade_report(upgraded: nat, skipped: nat) -> Seq<char> {
    if upgraded > 0 {
        "Upgraded "@ + decimal(upgraded) + " package(s)"@
    } else if skipped > 0 {
        "All "@ + decimal(skipped) + " package(s) up to date"@
    } else {
        "No packages to upgrade"@
    }
}

/// The line after an upgrade.
pub fn upgrade_message(upgraded: u64, skipped: u64) -> (r: String)
    ensures
        r@ == upgrade_report(upgraded as nat, skipped as nat),
{
    if upgraded > 0 {
        let n = u64_text(upgraded);
        let head = cat("Upgraded ", n.as_str());
        cat(head.as_str(), " package(s)")
    } else if skipped > 0 {
        let n = u64_text(skipped);
        let head = cat("All ", n.as_str());
        cat(head.as_str(), " package(s) up to date")
    } else {
        String::from_str("No packages to upgrade")
    }
}

/// The line after wiping `count` generations (or finding that many to wipe,
/// on a dry run).
pub open spec fn wipe_report(count: nat, dry_run: bool) -> Seq<char> {
    if count == 0 {
        "No profile versions to delete."@
    } else if dry_run {
        "Would delete "@ + decimal(count) + " version(s)"@
    } else {
        "Deleted "@ + decimal(count) + " version(s)"@
    }
}

/// The line after wiping the history.
pub fn wipe_message(count: u64, dry_run: bool) -> (r: String)
    ensures
        r@ == wipe_report(count as nat, dry_run),
{
    if count == 0 {
        String::from_str("No profile versions to delete.")
    } else {
        let n = u64_text(count);
        let head = if dry_run {
            cat("Would delete ", n.as_str())
        } else {
            cat("Deleted ", n.as_str())
        };
        cat(head.as_str(), " version(s)")
    }
}

} // verus!
