//! The spinner: a cycle of pre-rendered frames.

use crate::styled::{styled_measure, styled_plain, styled_spans, styled_width};
use cursive_core::utils::markup::StyledString;
use vstd::arithmetic::div_mod::{
    lemma_add_mod_noop_right, lemma_mod_add_multiples_vanish, lemma_small_mod,
};
use vstd::prelude::*;

verus! {

/// One style of a spinner table: its name, its frames in order, and the time
/// between two frames in milliseconds.
pub struct SpinnerData {
    pub name: String,
    pub frames: Vec<String>,
    pub interval: u16,
}

/// `out` holds the frames of `frames` in order, each as one span without
/// style.
pub open spec fn spec_plain_frames(frames: Seq<String>, out: Seq<StyledString>) -> bool {
    &&& out.len() == frames.len()
    &&& forall|j: int|
        0 <= j < frames.len() ==> styled_spans(#[trigger] out[j]) == seq![(frames[j]@, false)]
}

/// Whether `i` is the first entry of `table` that is named `style`.
pub open spec fn spec_first_named(table: Seq<SpinnerData>, style: Seq<char>, i: int) -> bool {
    &&& 0 <= i < table.len()
    &&& table[i].name@ == style
    &&& forall|k: int| 0 <= k < i ==> (#[trigger] table[k]).name@ != style
}

/// The index after one cycle of a spinner of `total` frames.
pub open spec fn spec_next_frame(index: int, total: int) -> int {
    (index + 1) % total
}

/// The index after `count` cycles of a spinner of `total` frames.
pub open spec fn spec_ticks(index: int, total: int, count: nat) -> int
    decreases count,
{
    if count == 0 {
        index
    } else {
        spec_next_frame(spec_ticks(index, total, (count - 1) as nat), total)
    }
}

/// The pre-rendered frames of each entry of `table`, in the order of the
/// table: its name, its frames as styled text, and its interval.
pub fn transform_spinners(table: &Vec<SpinnerData>) -> (spinners: Vec<
    (String, Vec<StyledString>, usize),
>)
    ensures
        spinners.len() == table.len(),
        forall|i: int|
            0 <= i < table.len() ==> {
                &&& (#[trigger] spinners[i]).0@ == table[i].name@
                &&& spec_plain_frames(table[i].frames@, spinners[i].1@)
                &&& spinners[i].2 == table[i].interval
            },
{
    let mut spinners: Vec<(String, Vec<StyledString>, usize)> = Vec::new();
    let mut i: usize = 0;
    while i < table.len()
        invariant
            i <= table.len(),
            spinners.len() == i,
            forall|k: int|
                0 <= k < i ==> {
                    &&& (#[trigger] spinners[k]).0@ == table[k].name@
                    &&& spec_plain_frames(table[k].frames@, spinners[k].1@)
                    &&& spinners[k].2 == table[k].interval
                },
        decreases table.len() - i,
    {
        let entry = &table[i];
        let mut spinner_frames: Vec<StyledString> = Vec::new();
        let mut j: usize = 0;
        while j < entry.frames.len()
            invariant
                j <= entry.frames.len(),
                spinner_frames.len() == j,
                forall|k: int|
                    0 <= k < j ==> styled_spans(#[trigger] spinner_frames[k]) == seq![
                        (entry.frames[k]@, false),
                    ],
            decreases entry.frames.len() - j,
        {
            spinner_frames.push(styled_plain(entry.frames[j].as_str()));
            j += 1;
        }
        spinners.push((entry.name.clone(), spinner_frames, entry.interval as usize));
        i += 1;
    }
    spinners
}

/// Index of the first entry of `table` that is named `style`, if there is
/// one.
pub fn find_spinner(table: &Vec<SpinnerData>, style: &str) -> (found: Option<usize>)
    ensures
        match found {
            Some(i) => spec_first_named(table@, style@, i as int),
            None => forall|k: int| 0 <= k < table.len() ==> (#[trigger] table[k]).name@ != style@,
        },
{
    let wanted: String = style.to_owned();
    let mut i: usize = 0;
    while i < table.len()
        invariant
            i <= table.len(),
            wanted@ == style@,
            forall|k: int| 0 <= k < i ==> (#[trigger] table[k]).name@ != style@,
        decreases table.len() - i,
    {
        if table[i].name == wanted {
            return Some(i);
        }
        i += 1;
    }
    None
}

/// Animation state of a spinner: the frames of one style and the index of
/// the frame that is shown.
pub struct SpinnerStateView {
    frame: usize,
    frames: Vec<StyledString>,
    total_frames: usize,
}

impl SpinnerStateView {
    /// Index of the frame that is shown.
    pub closed spec fn spec_frame(&self) -> usize {
        self.frame
    }

    /// The frames, in order.
    pub closed spec fn spec_frames(&self) -> Seq<StyledString> {
        self.frames@
    }

    /// There is at least one frame, and the index points at one.
    #[verifier::type_invariant]
    pub closed spec fn inv(&self) -> bool {
        &&& self.total_frames == self.frames.len()
        &&& self.frame < self.total_frames
    }

    /// The spinner of the first entry of `table` named `style`, at its first
    /// frame, and that entry's interval. The table must hold the style, with
    /// at least one frame.
    pub fn new(table: &Vec<SpinnerData>, style: &str) -> (made: (Self, usize))
        requires
            exists|i: int|
                spec_first_named(table@, style@, i) && (#[trigger] table[i]).frames.len() > 0,
        ensures
            exists|i: int|
                {
                    &&& spec_first_named(table@, style@, i)
                    &&& spec_plain_frames((#[trigger] table[i]).frames@, made.0.spec_frames())
                    &&& made.0.spec_frame() == 0
                    &&& made.1 == table[i].interval
                },
    {
        let mut spinners = transform_spinners(table);
        let found = find_spinner(table, style);
        let i: usize = found.unwrap();
        let (_name, frames, interval) = spinners.swap_remove(i);
        let len: usize = frames.len();
        (Self { frame: 0, frames, total_frames: len }, interval)
    }

    /// Index of the frame that is shown; it always points at a frame.
    pub fn frame(&self) -> (frame: usize)
        ensures
            frame == self.spec_frame(),
            frame < self.spec_frames().len(),
    {
        proof {
            use_type_invariant(self);
        }
        self.frame
    }

    /// Number of frames; there is always at least one.
    pub fn total_frames(&self) -> (total: usize)
        ensures
            total == self.spec_frames().len(),
            total > 0,
    {
        proof {
            use_type_invariant(self);
        }
        self.total_frames
    }

    /// One animation cycle: the next frame is shown, and after the last one
    /// the first.
    pub fn tick(&mut self)
        ensures
            final(self).spec_frame() == spec_next_frame(
                old(self).spec_frame() as int,
                old(self).spec_frames().len() as int,
            ),
            final(self).spec_frames() == old(self).spec_frames(),
    {
        proof {
            use_type_invariant(&*self);
        }
        self.frame = (self.frame + 1) % self.total_frames;
    }

    /// The frame that is shown.
    pub fn current_frame(&self) -> (shown: &StyledString)
        ensures
            self.spec_frame() < self.spec_frames().len(),
            *shown == self.spec_frames()[self.spec_frame() as int],
    {
        proof {
            use_type_invariant(self);
        }
        &self.frames[self.frame]
    }

    /// The size asked for in layout negotiation: the width of the frame that
    /// is shown, on one line.
    pub fn required_size(&self) -> (size: (usize, usize))
        ensures
            self.spec_frame() < self.spec_frames().len(),
            size.0 == styled_width(self.spec_frames()[self.spec_frame() as int]),
            size.1 == 1,
    {
        proof {
            use_type_invariant(self);
        }
        (styled_measure(&self.frames[self.frame]), 1)
    }
}

/// After `count` cycles a spinner of `total` frames that started at `index`
/// shows frame `(index + count) % total`.
pub proof fn lemma_ticks_add(index: nat, total: nat, count: nat)
    requires
        index < total,
    ensures
        spec_ticks(index as int, total as int, count) == ((index + count) as int) % (
            total as int
        ),
    decreases count,
{
    if count == 0 {
        lemma_small_mod(index, total);
    } else {
        lemma_ticks_add(index, total, (count - 1) as nat);
        lemma_add_mod_noop_right(1, index + count - 1, total as int);
    }
}

/// A spinner of `total` frames shows, after exactly `total` cycles, the
/// frame it started at.
pub proof fn lemma_cycle_closure(index: nat, total: nat)
    requires
        index < total,
    ensures
        spec_ticks(index as int, total as int, total) == index,
{
    lemma_ticks_add(index, total, total);
    lemma_mod_add_multiples_vanish(index as int, total as int);
    lemma_small_mod(index, total);
}

} // verus!
