//! Styled messages for standard error, coloured only when it is a terminal.
use vstd::prelude::*;
use crate::paint::sgr;

verus! {

/// `text` between the escape `ESC[<code>m` and a reset when `color` is on,
/// else `text` unchanged.
pub open spec fn styled(color: bool, code: Seq<char>, text: Seq<char>) -> Seq<char> {
    if color {
        sgr(code) + text + sgr(seq!['0'])
    } else {
        text
    }
}

/// `text` styled with `code` when `color` is on.
fn style_with(color: bool, code: &str, text: &str) -> (r: String)
    ensures
        r@ == styled(color, code@, text@),
{
    if !color {
        return crate::text::owned(text);
    }
    let mut r = String::from_str("\x1b[");
    r.append(code);
    r.append("m");
    r.append(text);
    r.append("\x1b[0m");
    proof {
        reveal_strlit("\x1b[");
        reveal_strlit("m");
        reveal_strlit("\x1b[0m");
    }
    assert(r@ =~= styled(color, code@, text@));
    r
}

/// `text` in bold yellow when `color` is on (whether standard error is a
/// terminal).
pub fn yellow(text: &str, color: bool) -> (r: String)
    ensures
        r@ == styled(color, seq!['1', ';', '3', '3'], text@),
{
    proof { reveal_strlit("1;33"); }
    style_with(color, "1;33", text)
}

/// `text` in bold magenta when `color` is on.
pub fn magenta(text: &str, color: bool) -> (r: String)
    ensures
        r@ == styled(color, seq!['1', ';', '3', '5'], text@),
{
    proof { reveal_strlit("1;35"); }
    style_with(color, "1;35", text)
}

/// `text` in cyan when `color` is on.
pub fn cyan(text: &str, color: bool) -> (r: String)
    ensures
        r@ == styled(color, seq!['3', '6'], text@),
{
    proof { reveal_strlit("36"); }
    style_with(color, "36", text)
}

/// `text` in bold when `color` is on.
pub fn bold(text: &str, color: bool) -> (r: String)
    ensures
        r@ == styled(color, seq!['1'], text@),
{
    proof { reveal_strlit("1"); }
    style_with(color, "1", text)
}

} // verus!
