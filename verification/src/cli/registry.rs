//! `registry`: the lines that report registry entries.
use vstd::prelude::*;
use crate::text::{owned, cat};
use crate::paint::{Paint, paint, paint_if};

verus! {

/// The subcommands of `registry`.
pub enum RegistryCommands {
    List { no_global: bool },
    Add { name: String, target: String },
    Remove { name: String },
    Pin { name: String, to: Option<String> },
}

/// Options of `registry`.
pub struct RegistryArgs {
    pub command: RegistryCommands,
}

/// `n` spaces.
pub open spec fn spaces(n: nat) -> Seq<char>
    decreases n,
{
    if n == 0 {
        Seq::empty()
    } else {
        spaces((n - 1) as nat).push(' ')
    }
}

/// `s` padded with spaces on the right to at least six characters.
pub open spec fn pad6(s: Seq<char>) -> Seq<char> {
    if s.len() < 6 {
        s + spaces((6 - s.len()) as nat)
    } else {
        s
    }
}

/// `s` padded to at least six characters.
fn pad_six(s: &str) -> (r: String)
    ensures
        r@ == pad6(s@),
{
    let n = s.unicode_len();
    let mut r = owned(s);
    if n < 6 {
        let mut k: usize = 0;
        assert(spaces(0) =~= Seq::<char>::empty());
        while k < 6 - n
            invariant
                n == s@.len(),
                n < 6,
                k <= 6 - n,
                r@ == s@ + spaces(k as nat),
            decreases 6 - n - k,
        {
            crate::text::push_char(&mut r, ' ');
            k = k + 1;
            assert(r@ =~= s@ + spaces(k as nat));
        }
    }
    r
}

/// The line of a registry entry: its source, `flake:<name>`, and the
/// flake reference it stands for.
pub fn registry_list_line(color: bool, name: &str, source: &str, flake_ref: &str) -> (r: String)
    ensures
        r@ == paint_if(color, Paint::Dimmed, pad6(source@)) + " "@ + paint_if(color, Paint::Bold, "flake:"@ + name@)
            + " "@ + flake_ref@,
{
    let padded = pad_six(source);
    let mut r = paint(color, Paint::Dimmed, padded.as_str());
    r.append(" ");
    let f = cat("flake:", name);
    let b = paint(color, Paint::Bold, f.as_str());
    r.append(b.as_str());
    r.append(" ");
    r.append(flake_ref);
    r
}

/// The line after an entry was added.
pub fn added_line(color: bool, name: &str, flake_ref: &str) -> (r: String)
    ensures
        r@ == "Added: "@ + paint_if(color, Paint::Bold, "flake:"@ + name@) + " -> "@ + flake_ref@,
{
    let f = cat("flake:", name);
    let b = paint(color, Paint::Bold, f.as_str());
    let mut r = cat("Added: ", b.as_str());
    r.append(" -> ");
    r.append(flake_ref);
    r
}

/// The line after an entry was removed.
pub fn removed_line(color: bool, name: &str) -> (r: String)
    ensures
        r@ == "Removed: "@ + paint_if(color, Paint::Bold, "flake:"@ + name@),
{
    let f = cat("flake:", name);
    let b = paint(color, Paint::Bold, f.as_str());
    cat("Removed: ", b.as_str())
}

/// The error when the user registry has no entry `name`.
pub fn entry_not_found_message(name: &str) -> (r: String)
    ensures
        r@ == "Entry '"@ + name@ + "' not found in user registry."@,
{
    let mut r = cat("Entry '", name);
    r.append("' not found in user registry.");
    r
}

/// Why a registry command is refused.
pub enum RegistryError {
    /// `pin` without `--to`.
    RevisionRequired,
}

impl RegistryError {
    /// The error's text.
    pub fn message(&self) -> (r: String)
        ensures
            r@ == "--to revision is required"@,
    {
        String::from_str("--to revision is required")
    }
}

/// The revision to pin to; `--to` is required.
pub fn pin_revision(to: Option<String>) -> (r: Result<String, RegistryError>)
    ensures
        match to {
            Some(t) => r matches Ok(x) && x@ == t@,
            None => r matches Err(RegistryError::RevisionRequired),
        },
{
    match to {
        Some(t) => Ok(t),
        None => Err(RegistryError::RevisionRequired),
    }
}

/// The line after an entry was pinned.
pub fn pinned_line(color: bool, name: &str, rev: &str) -> (r: String)
    ensures
        r@ == "Pinned: "@ + paint_if(color, Paint::Bold, "flake:"@ + name@) + " to "@ + paint_if(color, Paint::Cyan, rev@),
{
    let f = cat("flake:", name);
    let b = paint(color, Paint::Bold, f.as_str());
    let mut r = cat("Pinned: ", b.as_str());
    r.append(" to ");
    let c = paint(color, Paint::Cyan, rev);
    r.append(c.as_str());
    r
}

} // verus!
