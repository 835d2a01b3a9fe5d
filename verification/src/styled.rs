//! Styled text of `cursive_core`, as far as this library builds and measures it.

use cursive_core::style::ColorStyle;
use cursive_core::utils::markup::StyledString;
use vstd::prelude::*;

verus! {

/// `cursive_core::utils::span::SpannedString`, a text with spans that each
/// carry an attribute; nothing inside it is looked at from here.
#[verifier::external_type_specification]
#[verifier::external_body]
#[verifier::reject_recursive_types(T)]
pub struct ExSpannedString<T>(cursive_core::utils::span::SpannedString<T>);

/// `cursive_core::style::Style`, the attribute of a span of styled text;
/// nothing inside it is looked at from here.
#[verifier::external_type_specification]
#[verifier::external_body]
pub struct ExStyle(cursive_core::style::Style);

/// The spans of a styled string in order: the text of each, and whether its
/// style is exactly the secondary colour style.
pub uninterp spec fn styled_spans(text: StyledString) -> Seq<(Seq<char>, bool)>;

/// The width of a styled string in terminal cells: the sum of the widths
/// that its spans record.
pub uninterp spec fn styled_width(text: StyledString) -> nat;

/// `StyledString::plain`: a single span, holding `piece` with no style.
#[verifier::external_body]
pub(crate) fn styled_plain(piece: &str) -> (text: StyledString)
    ensures
        styled_spans(text) == seq![(piece@, false)],
{
    StyledString::plain(piece)
}

/// `SpannedString::width`: the width of the styled string in cells.
#[verifier::external_body]
pub(crate) fn styled_measure(text: &StyledString) -> (width: usize)
    ensures
        width == styled_width(*text),
{
    text.width()
}

/// `SpannedString::new`: a styled string without any span.
#[verifier::external_body]
pub(crate) fn styled_new() -> (text: StyledString)
    ensures
        styled_spans(text) == Seq::<(Seq<char>, bool)>::empty(),
{
    StyledString::new()
}

/// `StyledString::append_plain`: one more span at the end, holding `piece`
/// with no style; the spans before it stay as they were.
#[verifier::external_body]
pub(crate) fn styled_append_plain(text: &mut StyledString, piece: &str)
    ensures
        styled_spans(*final(text)) == styled_spans(*old(text)).push((piece@, false)),
{
    text.append_plain(piece);
}

/// `StyledString::append_styled` with `ColorStyle::secondary()`: one more
/// span at the end, holding `piece` in the secondary colour style; the spans
/// before it stay as they were.
#[verifier::external_body]
pub(crate) fn styled_append_secondary(text: &mut StyledString, piece: &str)
    ensures
        styled_spans(*final(text)) == styled_spans(*old(text)).push((piece@, true)),
{
    text.append_styled(piece, ColorStyle::secondary());
}

} // verus!
