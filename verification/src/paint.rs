//! Terminal coloring, through the `colored` crate.  Whether escape codes are
//! emitted depends on the terminal and environment, so each wrapper promises
//! only that the painted text contains the input unchanged.

use vstd::prelude::*;
use colored::Colorize;

verus! {

/// The painted text contains `s` verbatim, possibly between escape codes.
pub open spec fn paints(s: Seq<char>, r: Seq<char>) -> bool {
    (forall|i: int| 0 <= i < s.len() ==> #[trigger] s[i] != '\u{1b}') ==> exists|pre: Seq<char>, post: Seq<char>|
        r == pre + s + post
}

/// Relies on colored's Colorize::white: renders the input either plain or
/// between a style prefix and a reset suffix (the input is rewritten only
/// when it already contains escape sequences).
#[verifier::external_body]
pub(crate) fn paint_white(s: &str) -> (r: String)
    ensures
        paints(s@, r@),
{
    s.white().to_string()
}

/// Relies on colored's Colorize::bold; see [`paint_white`].
#[verifier::external_body]
pub(crate) fn paint_bold(s: &str) -> (r: String)
    ensures
        paints(s@, r@),
{
    s.bold().to_string()
}

/// Relies on colored's Colorize::purple; see [`paint_white`].
#[verifier::external_body]
pub(crate) fn paint_purple(s: &str) -> (r: String)
    ensures
        paints(s@, r@),
{
    s.purple().to_string()
}

/// Relies on colored's Colorize::yellow; see [`paint_white`].
#[verifier::external_body]
pub(crate) fn paint_yellow(s: &str) -> (r: String)
    ensures
        paints(s@, r@),
{
    s.yellow().to_string()
}

/// Relies on colored's Colorize::blue; see [`paint_white`].
#[verifier::external_body]
pub(crate) fn paint_blue(s: &str) -> (r: String)
    ensures
        paints(s@, r@),
{
    s.blue().to_string()
}

/// Relies on colored's Colorize::green; see [`paint_white`].
#[verifier::external_body]
pub(crate) fn paint_green(s: &str) -> (r: String)
    ensures
        paints(s@, r@),
{
    s.green().to_string()
}

/// Relies on colored's Colorize::red; see [`paint_white`].
#[verifier::external_body]
pub(crate) fn paint_red(s: &str) -> (r: String)
    ensures
        paints(s@, r@),
{
    s.red().to_string()
}

} // verus!
