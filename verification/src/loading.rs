//! The loading bar: a highlighted segment that travels along a bar of glyphs.

use crate::styled::{styled_append_plain, styled_append_secondary, styled_new, styled_spans};
use cursive_core::utils::markup::StyledString;
use std::ops::RangeInclusive;
use vstd::arithmetic::div_mod::{lemma_mod_add_multiples_vanish, lemma_mod_bound, lemma_small_mod};
use vstd::prelude::*;

verus! {

/// Milliseconds between two animation cycles of a loading bar.
pub const LOADING_INTERVAL: usize = 80;

/// The glyph pair a loading bar is drawn with.
#[derive(Clone, Copy, Debug, PartialEq, Eq, Structural)]
pub enum LoadingCharStyle {
    FullBlock,
    Dash,
    DashAndEquals,
    ReverseDashAndEquals,
}

/// Length of the highlighted segment of a bar `width` cells long.
pub open spec fn spec_middle(width: int) -> int {
    if width % 3 == 2 {
        (width + 1) / 3
    } else if width % 3 == 1 {
        (width + 2) / 3 + 1
    } else {
        width / 3
    }
}

/// Length of each flanking segment of a bar `width` cells long.
pub open spec fn spec_outer(width: int) -> int {
    if width % 3 == 2 {
        spec_middle(width) - 2
    } else if width % 3 == 1 {
        spec_middle(width) - 1
    } else {
        spec_middle(width)
    }
}

/// Last cell of the highlighted segment: the counter, taken round the bar.
pub open spec fn spec_end(state: int, total: int) -> int {
    state % total
}

/// First cell of the highlighted segment: `middle` cells before the last
/// one, but not before cell zero, until the bar has been run through once;
/// after that `middle` cells before the last one round the bar.
pub open spec fn spec_start(state: int, middle: int, total: int) -> int {
    if state < total {
        if state >= middle { state - middle } else { 0 }
    } else if spec_end(state, total) + total >= middle {
        (spec_end(state, total) + total - middle) % total
    } else {
        0
    }
}

/// Whether the highlighted segment runs over the end of the bar and
/// continues at its beginning.
pub open spec fn spec_wraps(state: int, middle: int, total: int) -> bool {
    state >= total && spec_end(state, total) < spec_start(state, middle, total)
}

/// The two inclusive ranges `((from, to), (from, to))` of highlighted cells.
pub open spec fn spec_ranges(state: int, middle: int, total: int) -> ((int, int), (int, int)) {
    let start = spec_start(state, middle, total);
    let end = spec_end(state, total);
    if spec_wraps(state, middle, total) {
        ((start, total), (1, end))
    } else {
        ((start, end), (end, start))
    }
}

/// Whether cell `i` lies in one of the two ranges.
pub open spec fn spec_highlighted(state: int, middle: int, total: int, i: int) -> bool {
    let r = spec_ranges(state, middle, total);
    (r.0.0 <= i <= r.0.1) || (r.1.0 <= i <= r.1.1)
}

/// The glyphs `(active, inactive)` of a style.
pub open spec fn spec_glyphs(style: LoadingCharStyle) -> (Seq<char>, Seq<char>) {
    match style {
        LoadingCharStyle::FullBlock => (seq!['█'], seq!['█']),
        LoadingCharStyle::Dash => (seq!['━'], seq!['━']),
        LoadingCharStyle::DashAndEquals => (seq!['━'], seq!['=']),
        LoadingCharStyle::ReverseDashAndEquals => (seq!['='], seq!['━']),
    }
}

/// The width a bar is drawn at: at least three cells.
pub open spec fn spec_clamped(width: int) -> int {
    if width < 3 { 3 } else { width }
}

/// Cell `i` (counted from 1) of the bar drawn at `state`: its glyph, and
/// whether it is highlighted.
pub open spec fn spec_cell(state: int, width: int, style: LoadingCharStyle, i: int) -> (
    Seq<char>,
    bool,
) {
    let total = spec_clamped(width);
    if spec_highlighted(state, spec_middle(total), total, i) {
        (spec_glyphs(style).0, true)
    } else {
        (spec_glyphs(style).1, false)
    }
}

/// The bar drawn at `state`: one span for each of its cells, in order.
pub open spec fn spec_bar(state: int, width: int, style: LoadingCharStyle) -> Seq<
    (Seq<char>, bool),
> {
    Seq::new(spec_clamped(width) as nat, |k: int| spec_cell(state, width, style, k + 1))
}

/// The counter after one animation cycle.
pub open spec fn spec_tick(state: int, reverse: bool) -> int {
    if reverse {
        if state - 1 == 1 { usize::MAX as int } else { state - 1 }
    } else {
        if state + 1 == usize::MAX - 1 { 0 } else { state + 1 }
    }
}

/// Animation state of a loading bar.
pub struct LoadingStateView {
    state: usize,
    style: LoadingCharStyle,
    reverse: bool,
}

impl LoadingStateView {
    /// The cyclic counter.
    pub closed spec fn spec_state(&self) -> usize {
        self.state
    }

    /// The glyph pair.
    pub closed spec fn spec_style(&self) -> LoadingCharStyle {
        self.style
    }

    /// The direction the counter moves in.
    pub closed spec fn spec_reverse(&self) -> bool {
        self.reverse
    }

    /// A forward counter stays clear of the top of its type, a reverse one of
    /// the bottom, so that a cycle never leaves the type.
    #[verifier::type_invariant]
    pub closed spec fn inv(&self) -> bool {
        if self.reverse { self.state >= 2 } else { self.state <= usize::MAX - 2 }
    }

    /// A bar of glyphs `style` whose counter starts at zero and counts up,
    /// or, with `reverse`, starts at the last value of its type and counts
    /// down.
    pub fn new(style: LoadingCharStyle, reverse: bool) -> (view: Self)
        ensures
            view.spec_state() == (if reverse { usize::MAX } else { 0 }),
            view.spec_style() == style,
            view.spec_reverse() == reverse,
    {
        Self { state: if !reverse { 0 } else { usize::MAX }, style, reverse }
    }

    /// The cyclic counter.
    pub fn state(&self) -> (state: usize)
        ensures
            state == self.spec_state(),
    {
        self.state
    }

    /// One animation cycle: a forward counter goes up by one and starts
    /// again at zero when it reaches the last value but one of its type; a
    /// reverse counter goes down by one and starts again at the last value
    /// of its type when it reaches one.
    pub fn tick(&mut self)
        ensures
            final(self).spec_state() == spec_tick(
                old(self).spec_state() as int,
                old(self).spec_reverse(),
            ),
            final(self).spec_style() == old(self).spec_style(),
            final(self).spec_reverse() == old(self).spec_reverse(),
    {
        proof {
            use_type_invariant(&*self);
        }
        if self.reverse {
            let next: usize = self.state - 1;
            self.state = if next == 1 { usize::MAX } else { next };
        } else {
            let next: usize = self.state + 1;
            self.state = if next == usize::MAX - 1 { 0 } else { next };
        }
    }

    /// The two inclusive ranges of cells that are highlighted at `state`, on
    /// a bar of `total_length` cells whose segment is `middle` cells long.
    pub fn calculate_ranges(state: usize, middle: usize, total_length: usize) -> (ranges: (
        RangeInclusive<usize>,
        RangeInclusive<usize>,
    ))
        requires
            total_length > 0,
        ensures
            ranges.0@.start == spec_ranges(state as int, middle as int, total_length as int).0.0,
            ranges.0@.end == spec_ranges(state as int, middle as int, total_length as int).0.1,
            ranges.1@.start == spec_ranges(state as int, middle as int, total_length as int).1.0,
            ranges.1@.end == spec_ranges(state as int, middle as int, total_length as int).1.1,
            !ranges.0@.exhausted,
            !ranges.1@.exhausted,
    {
        if state < total_length {
            let end: usize = state % total_length;
            let start: usize = state.saturating_sub(middle);
            (start..=end, end..=start)
        } else {
            let end: usize = state % total_length;
            proof {
                if middle <= end {
                    lemma_mod_add_multiples_vanish(end - middle, total_length as int);
                }
            }
            let start: usize = if middle <= end {
                (end - middle) % total_length
            } else if middle - end <= total_length {
                (total_length - (middle - end)) % total_length
            } else {
                0
            };
            if end < start {
                (start..=total_length, 1..=end)
            } else {
                (start..=end, end..=start)
            }
        }
    }

    /// Segment lengths `(middle, outer)` of a bar `width` cells long.
    pub fn calculate_length(width: usize) -> (lengths: (usize, usize))
        requires
            width != 2,
        ensures
            lengths.0 == spec_middle(width as int),
            lengths.1 == spec_outer(width as int),
    {
        let rem: usize = width % 3;
        if rem == 2 {
            let middle: usize = (width + 1) / 3;
            (middle, middle - 2)
        } else if rem == 1 {
            let middle: usize = (width + 2) / 3 + 1;
            (middle, middle - 1)
        } else {
            let middle: usize = width / 3;
            (middle, middle)
        }
    }

    /// The bar as styled text: for each cell from the first to the last one
    /// span, the active glyph in the secondary colour where the cell is
    /// highlighted, the inactive glyph without style where it is not. A
    /// width below three is drawn as three.
    pub fn calculate_string(&self, width: usize) -> (text: StyledString)
        ensures
            styled_spans(text) == spec_bar(
                self.spec_state() as int,
                width as int,
                self.spec_style(),
            ),
    {
        let total: usize = if width < 3 { 3 } else { width };
        let (middle, _outer) = Self::calculate_length(total);
        let (range_1, range_2) = Self::calculate_ranges(self.state, middle, total);
        let (normal, inactive): (&str, &str) = match self.style {
            LoadingCharStyle::FullBlock => ("█", "█"),
            LoadingCharStyle::Dash => ("━", "━"),
            LoadingCharStyle::DashAndEquals => ("━", "="),
            LoadingCharStyle::ReverseDashAndEquals => ("=", "━"),
        };
        proof {
            reveal_strlit("█");
            reveal_strlit("━");
            reveal_strlit("=");
            assert(normal@ =~= spec_glyphs(self.style).0);
            assert(inactive@ =~= spec_glyphs(self.style).1);
        }
        let ghost bar = spec_bar(self.state as int, width as int, self.style);
        let mut text = styled_new();
        let mut done: usize = 0;
        while done < total
            invariant
                done <= total,
                total == spec_clamped(width as int),
                middle == spec_middle(total as int),
                bar == spec_bar(self.state as int, width as int, self.style),
                normal@ == spec_glyphs(self.style).0,
                inactive@ == spec_glyphs(self.style).1,
                range_1@.start == spec_ranges(self.state as int, middle as int, total as int).0.0,
                range_1@.end == spec_ranges(self.state as int, middle as int, total as int).0.1,
                range_2@.start == spec_ranges(self.state as int, middle as int, total as int).1.0,
                range_2@.end == spec_ranges(self.state as int, middle as int, total as int).1.1,
                !range_1@.exhausted,
                !range_2@.exhausted,
                styled_spans(text) == bar.take(done as int),
            decreases total - done,
        {
            let i: usize = done + 1;
            if range_1.contains(&i) || range_2.contains(&i) {
                styled_append_secondary(&mut text, normal);
            } else {
                styled_append_plain(&mut text, inactive);
            }
            assert(bar.take(done + 1) =~= bar.take(done as int).push(bar[done as int]));
            done = i;
        }
        assert(bar.take(total as int) =~= bar);
        text
    }

    /// The size asked for in layout negotiation: the segment lengths
    /// `(middle, outer)` of a bar as wide as the constraint. A width below
    /// three counts as three.
    pub fn required_size(&self, width: usize) -> (size: (usize, usize))
        ensures
            size.0 == spec_middle(spec_clamped(width as int)),
            size.1 == spec_outer(spec_clamped(width as int)),
    {
        let total: usize = if width < 3 { 3 } else { width };
        Self::calculate_length(total)
    }
}

/// The highlighted segment of a bar of at least three cells is at least one
/// cell and less than the whole bar.
pub proof fn lemma_middle_bounds(width: nat)
    requires
        width >= 3,
    ensures
        1 <= spec_middle(width as int) < width,
        0 <= spec_outer(width as int) < width,
{
}

/// On a bar of at least three cells the first range is never empty, and both
/// ranges lie within the cells `1..=width`, wherever the segment does not
/// start before the first cell: before the bar is run through once,
/// `state` must exceed the segment's length, and after that its remainder
/// by `width` must differ from it.
pub proof fn lemma_ranges_within_bar(state: nat, width: nat)
    requires
        width >= 3,
        state < width ==> state > spec_middle(width as int),
        state >= width ==> state % width != spec_middle(width as int),
    ensures
        ({
            let r = spec_ranges(state as int, spec_middle(width as int), width as int);
            &&& 1 <= r.0.0 <= r.0.1 <= width
            &&& r.1.0 > r.1.1 || 1 <= r.1.0 <= r.1.1 <= width
        }),
        forall|i: int| #[trigger]
            spec_highlighted(state as int, spec_middle(width as int), width as int, i) ==> 1 <= i
                <= width,
{
    let middle = spec_middle(width as int);
    let end = spec_end(state as int, width as int);
    lemma_middle_bounds(width);
    lemma_mod_bound(state as int, width as int);
    if state < width {
        lemma_small_mod(state, width);
    } else if end >= middle {
        lemma_mod_add_multiples_vanish(end - middle, width as int);
        lemma_small_mod((end - middle) as nat, width);
    } else {
        lemma_small_mod((end + width - middle) as nat, width);
    }
}

/// Once `state` has reached the segment's length, a bar of at least three
/// cells shows the same ranges at `state` and at `state + width`.
pub proof fn lemma_ranges_periodic(state: nat, width: nat)
    requires
        width >= 3,
        state >= spec_middle(width as int),
    ensures
        spec_ranges(state as int, spec_middle(width as int), width as int) == spec_ranges(
            (state + width) as int,
            spec_middle(width as int),
            width as int,
        ),
{
    let middle = spec_middle(width as int);
    lemma_middle_bounds(width);
    lemma_mod_add_multiples_vanish(state as int, width as int);
    if state < width {
        lemma_small_mod(state, width);
        lemma_mod_add_multiples_vanish(state - middle, width as int);
        lemma_small_mod((state - middle) as nat, width);
    }
}

/// Whatever the state, no range of a bar of at least three cells reaches
/// past the last cell, and the first range is never empty.
pub proof fn lemma_ranges_bounded(state: nat, width: nat)
    requires
        width >= 3,
    ensures
        ({
            let r = spec_ranges(state as int, spec_middle(width as int), width as int);
            &&& 0 <= r.0.0 <= r.0.1 <= width
            &&& r.1.0 > r.1.1 || 0 <= r.1.0 <= r.1.1 <= width
        }),
{
    let middle = spec_middle(width as int);
    let end = spec_end(state as int, width as int);
    lemma_middle_bounds(width);
    lemma_mod_bound(state as int, width as int);
    lemma_mod_bound(end + width - middle, width as int);
    if state < width {
        lemma_small_mod(state, width);
    }
}

/// At every state but zero at least one cell of a bar of at least three
/// cells is highlighted.
pub proof fn lemma_some_cell_highlighted(state: nat, width: nat)
    requires
        width >= 3,
        state > 0,
    ensures
        exists|i: int|
            1 <= i <= width && #[trigger] spec_highlighted(
                state as int,
                spec_middle(width as int),
                width as int,
                i,
            ),
{
    let middle = spec_middle(width as int);
    let end = spec_end(state as int, width as int);
    lemma_middle_bounds(width);
    lemma_mod_bound(state as int, width as int);
    lemma_mod_bound(end + width - middle, width as int);
    if state < width {
        lemma_small_mod(state, width);
        assert(spec_highlighted(state as int, middle, width as int, state as int));
    } else if spec_wraps(state as int, middle, width as int) {
        assert(spec_highlighted(state as int, middle, width as int, width as int));
    } else if end >= 1 {
        assert(spec_highlighted(state as int, middle, width as int, end));
    } else {
        lemma_small_mod((width - middle) as nat, width);
    }
}

} // verus!
