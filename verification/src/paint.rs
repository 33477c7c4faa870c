//! Terminal colours and styles, as `owo_colors` writes them.
use vstd::prelude::*;
use owo_colors::OwoColorize;

verus! {

/// A style of text on a terminal.
#[derive(Clone, Copy, PartialEq, Eq, Structural)]
pub enum Paint {
    Bold,
    Dimmed,
    Green,
    Red,
    Yellow,
    Cyan,
}

/// The escape sequence `ESC [ code m`.
pub open spec fn sgr(code: Seq<char>) -> Seq<char> {
    seq!['\x1b', '['] + code + seq!['m']
}

/// `t` in the style `p`: bold and dim end with a reset, colours with the
/// default foreground.
pub open spec fn painted(p: Paint, t: Seq<char>) -> Seq<char> {
    match p {
        Paint::Bold => sgr(seq!['1']) + t + sgr(seq!['0']),
        Paint::Dimmed => sgr(seq!['2']) + t + sgr(seq!['0']),
        Paint::Green => sgr(seq!['3', '2']) + t + sgr(seq!['3', '9']),
        Paint::Red => sgr(seq!['3', '1']) + t + sgr(seq!['3', '9']),
        Paint::Yellow => sgr(seq!['3', '3']) + t + sgr(seq!['3', '9']),
        Paint::Cyan => sgr(seq!['3', '6']) + t + sgr(seq!['3', '9']),
    }
}

/// `t` in the style `p` when colours are on, else `t` as it is.
pub open spec fn paint_if(color: bool, p: Paint, t: Seq<char>) -> Seq<char> {
    if color {
        painted(p, t)
    } else {
        t
    }
}

/// Displays `t` through `OwoColorize::bold`, which writes `ESC[1m`, the
/// text, and `ESC[0m`.
#[verifier::external_body]
fn bold_text(t: &str) -> (r: String)
    ensures
        r@ == painted(Paint::Bold, t@),
{
    t.bold().to_string()
}

/// Displays `t` through `OwoColorize::dimmed`, which writes `ESC[2m`, the
/// text, and `ESC[0m`.
#[verifier::external_body]
fn dimmed_text(t: &str) -> (r: String)
    ensures
        r@ == painted(Paint::Dimmed, t@),
{
    t.dimmed().to_string()
}

/// Displays `t` through `OwoColorize::green`, which writes `ESC[32m`, the
/// text, and `ESC[39m`.
#[verifier::external_body]
fn green_text(t: &str) -> (r: String)
    ensures
        r@ == painted(Paint::Green, t@),
{
    t.green().to_string()
}

/// Displays `t` through `OwoColorize::red`, which writes `ESC[31m`, the
/// text, and `ESC[39m`.
#[verifier::external_body]
fn red_text(t: &str) -> (r: String)
    ensures
        r@ == painted(Paint::Red, t@),
{
    t.red().to_string()
}

/// Displays `t` through `OwoColorize::yellow`, which writes `ESC[33m`, the
/// text, and `ESC[39m`.
#[verifier::external_body]
fn yellow_text(t: &str) -> (r: String)
    ensures
        r@ == painted(Paint::Yellow, t@),
{
    t.yellow().to_string()
}

/// Displays `t` through `OwoColorize::cyan`, which writes `ESC[36m`, the
/// text, and `ESC[39m`.
#[verifier::external_body]
fn cyan_text(t: &str) -> (r: String)
    ensures
        r@ == painted(Paint::Cyan, t@),
{
    t.cyan().to_string()
}

/// `t` in the style `p` when `color` is on, else `t` unchanged.
pub fn paint(color: bool, p: Paint, t: &str) -> (r: String)
    ensures
        r@ == paint_if(color, p, t@),
{
    if !color {
        return crate::text::owned(t);
    }
    match p {
        Paint::Bold => bold_text(t),
        Paint::Dimmed => dimmed_text(t),
        Paint::Green => green_text(t),
        Paint::Red => red_text(t),
        Paint::Yellow => yellow_text(t),
        Paint::Cyan => cyan_text(t),
    }
}

} // verus!
