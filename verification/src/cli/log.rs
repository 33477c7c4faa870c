//! `log`: the build log of a package.
use vstd::prelude::*;
use crate::text::{owned, cat};
use crate::command::NixCommand;

verus! {

/// Options of `log`.
pub struct LogArgs {
    /// Installable reference.
    pub installable: String,
}

/// The `nix log` a remote installable is handed to.
pub fn remote_log_command(flake_ref: &str, attr_part: &str) -> (r: NixCommand)
    ensures
        r.prog() == "nix"@,
        r.argv() == seq!["log"@, flake_ref@ + "#"@ + attr_part@],
{
    let mut cmd = NixCommand::new("nix");
    cmd.arg("log");
    let mut full = owned(flake_ref);
    full.append("#");
    full.append(attr_part);
    cmd.arg(full.as_str());
    assert(cmd.argv() =~= seq!["log"@, flake_ref@ + "#"@ + attr_part@]);
    cmd
}

/// The error when a derivation has no build log.
pub fn missing_log_message(drv_path: &str) -> (r: String)
    ensures
        r@ == "No build log available for "@ + drv_path@,
{
    cat("No build log available for ", drv_path)
}

} // verus!
