//! Text styles used in flake listings.
use vstd::prelude::*;
use crate::paint::sgr;

verus! {

/// `text` in bold, always.
pub fn bold(text: &str) -> (r: String)
    ensures
        r@ == sgr(seq!['1']) + text@ + sgr(seq!['0']),
{
    let mut r = String::from_str("\x1b[1m");
    r.append(text);
    r.append("\x1b[0m");
    proof {
        reveal_strlit("\x1b[1m");
        reveal_strlit("\x1b[0m");
    }
    assert(r@ =~= sgr(seq!['1']) + text@ + sgr(seq!['0']));
    r
}

/// `text` in bold magenta (as for type labels such as "Nixpkgs overlay"), always.
pub fn magenta_bold(text: &str) -> (r: String)
    ensures
        r@ == sgr(seq!['3', '5', ';', '1']) + text@ + sgr(seq!['0']),
{
    let mut r = String::from_str("\x1b[35;1m");
    r.append(text);
    r.append("\x1b[0m");
    proof {
        reveal_strlit("\x1b[35;1m");
        reveal_strlit("\x1b[0m");
    }
    assert(r@ =~= sgr(seq!['3', '5', ';', '1']) + text@ + sgr(seq!['0']));
    r
}

} // verus!
