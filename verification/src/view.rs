//! The placeholder-to-content state of an asynchronous view.

use crate::styled::{styled_measure, styled_plain, styled_spans, styled_width};
use cursive_core::utils::markup::StyledString;
use vstd::prelude::*;

verus! {

/// What a background computation reports: nothing yet, the content, or an
/// error in place of the content.
pub enum AsyncResult<T, E> {
    Pending,
    Available(T),
    Failed(E),
}

/// What an asynchronous view shows: the placeholder while it waits, the
/// content once it has been delivered, the error where the computation
/// failed, or nothing at all.
pub enum Showing<T, P, E> {
    Placeholder(P),
    Content(T),
    Failure(E),
    Nothing,
}

/// Which of its renderables an asynchronous view shows.
#[derive(Clone, Copy, Debug, PartialEq, Eq, Structural)]
pub enum Shown {
    Placeholder,
    Content,
    Failure,
    Nothing,
}

/// Which renderable is shown in a state.
pub open spec fn spec_shown<T, P, E>(showing: Showing<T, P, E>) -> Shown {
    match showing {
        Showing::Placeholder(_) => Shown::Placeholder,
        Showing::Content(_) => Shown::Content,
        Showing::Failure(_) => Shown::Failure,
        Showing::Nothing => Shown::Nothing,
    }
}

/// Whether a report settles a view that shows its placeholder.
pub open spec fn spec_settles<T, P, E>(showing: Showing<T, P, E>, result: AsyncResult<T, E>) -> bool {
    showing is Placeholder && !(result is Pending)
}

/// The state after a report of the computation: a view that shows its
/// placeholder goes over to the content or to the error that is reported;
/// any other view, and any view on a report of nothing yet, stays as it is.
pub open spec fn spec_deliver<T, P, E>(
    showing: Showing<T, P, E>,
    result: AsyncResult<T, E>,
) -> Showing<T, P, E> {
    match showing {
        Showing::Placeholder(_) => match result {
            AsyncResult::Pending => showing,
            AsyncResult::Available(content) => Showing::Content(content),
            AsyncResult::Failed(error) => Showing::Failure(error),
        },
        _ => showing,
    }
}

/// The state after a run of reports, taken in order.
pub open spec fn spec_deliver_all<T, P, E>(
    showing: Showing<T, P, E>,
    results: Seq<AsyncResult<T, E>>,
) -> Showing<T, P, E>
    decreases results.len(),
{
    if results.len() == 0 {
        showing
    } else {
        spec_deliver(spec_deliver_all(showing, results.drop_last()), results.last())
    }
}

/// The number of wakes that a run of reports, taken in order, asks for.
pub open spec fn spec_wakes<T, P, E>(
    showing: Showing<T, P, E>,
    results: Seq<AsyncResult<T, E>>,
) -> nat
    decreases results.len(),
{
    if results.len() == 0 {
        0
    } else {
        let before = spec_deliver_all(showing, results.drop_last());
        spec_wakes(showing, results.drop_last()) + if spec_settles(before, results.last()) {
            1nat
        } else {
            0nat
        }
    }
}

/// A view of content that a background computation produces, with a
/// placeholder to show in the meantime.
pub struct AsyncView<T, P, E> {
    pending_view: Option<P>,
    display_view: Option<T>,
    failure: Option<E>,
}

impl<T, P, E> View for AsyncView<T, P, E> {
    type V = Showing<T, P, E>;

    /// Delivered content is shown before anything else, then a reported
    /// error, then the placeholder.
    closed spec fn view(&self) -> Showing<T, P, E> {
        match (self.display_view, self.failure, self.pending_view) {
            (Some(content), _, _) => Showing::Content(content),
            (None, Some(error), _) => Showing::Failure(error),
            (None, None, Some(placeholder)) => Showing::Placeholder(placeholder),
            (None, None, None) => Showing::Nothing,
        }
    }
}

impl<T, P, E> AsyncView<T, P, E> {
    /// Whether the view still keeps a placeholder.
    pub closed spec fn spec_holds_placeholder(&self) -> bool {
        self.pending_view is Some
    }

    /// A view keeps a placeholder exactly for as long as it shows it. Every
    /// view that `new` makes is so, and no method changes that.
    pub open spec fn wf(&self) -> bool {
        self.spec_holds_placeholder() == (self@ is Placeholder)
    }

    /// A view that shows `view` until content is delivered.
    pub fn new(view: P) -> (made: Self)
        ensures
            made@ == Showing::<T, P, E>::Placeholder(view),
            made.spec_holds_placeholder(),
            made.wf(),
    {
        Self { pending_view: Some(view), display_view: None, failure: None }
    }

    /// Takes a report of the background computation, and says whether the
    /// render loop is to be woken: it is, exactly where the report settles
    /// the view. A view that is settled has dropped its placeholder: it
    /// keeps one only for as long as it shows it.
    pub fn deliver(&mut self, result: AsyncResult<T, E>) -> (wake: bool)
        ensures
            final(self)@ == spec_deliver(old(self)@, result),
            wake == spec_settles(old(self)@, result),
            final(self).spec_holds_placeholder() == (old(self).spec_holds_placeholder()
                && !spec_settles(old(self)@, result)),
            spec_settles(old(self)@, result) ==> !final(self).spec_holds_placeholder(),
            old(self).wf() ==> final(self).wf(),
    {
        if self.display_view.is_some() || self.failure.is_some() || self.pending_view.is_none() {
            return false;
        }
        match result {
            AsyncResult::Pending => false,
            AsyncResult::Available(content) => {
                self.display_view = Some(content);
                self.pending_view = None;
                true
            },
            AsyncResult::Failed(error) => {
                self.failure = Some(error);
                self.pending_view = None;
                true
            },
        }
    }

    /// Which renderable a draw, a layout or a size query goes to.
    pub fn shown(&self) -> (shown: Shown)
        ensures
            shown == spec_shown(self@),
    {
        if self.display_view.is_some() {
            Shown::Content
        } else if self.failure.is_some() {
            Shown::Failure
        } else if self.pending_view.is_some() {
            Shown::Placeholder
        } else {
            Shown::Nothing
        }
    }

    /// Whether a new layout is needed: always where nothing is shown, else
    /// what the renderable shown answers, and `true` without its answer.
    pub fn needs_relayout(&self, answer: Option<bool>) -> (needed: bool)
        ensures
            needed == match (spec_shown(self@), answer) {
                (Shown::Nothing, _) => true,
                (_, Some(answer)) => answer,
                (_, None) => true,
            },
    {
        match (self.shown(), answer) {
            (Shown::Nothing, _) => true,
            (_, Some(answer)) => answer,
            (_, None) => true,
        }
    }

    /// The size asked for in layout negotiation: no room at all where
    /// nothing is shown, else what the renderable shown asks for, and no
    /// room without its answer.
    pub fn required_size(&self, asked: Option<(usize, usize)>) -> (size: (usize, usize))
        ensures
            size == match (spec_shown(self@), asked) {
                (Shown::Nothing, _) => (0usize, 0usize),
                (_, Some(asked)) => asked,
                (_, None) => (0usize, 0usize),
            },
    {
        match (self.shown(), asked) {
            (Shown::Nothing, _) => (0, 0),
            (_, Some(asked)) => asked,
            (_, None) => (0, 0),
        }
    }

    /// The content, where it is what the view shows.
    pub fn content(&self) -> (content: Option<&T>)
        ensures
            match self@ {
                Showing::Content(shown) => content == Some(&shown),
                _ => content is None,
            },
    {
        self.display_view.as_ref()
    }

    /// The placeholder, where it is what the view shows.
    pub fn placeholder(&self) -> (placeholder: Option<&P>)
        ensures
            match self@ {
                Showing::Placeholder(shown) => placeholder == Some(&shown),
                _ => placeholder is None,
            },
    {
        if self.display_view.is_some() || self.failure.is_some() {
            None
        } else {
            self.pending_view.as_ref()
        }
    }

    /// The content for a change in place, where it is what the view shows.
    /// The view goes on showing the content, as the change leaves it.
    pub fn content_mut(&mut self) -> (content: Option<&mut T>)
        ensures
            match old(self)@ {
                Showing::Content(shown) => content is Some && *content.unwrap() == shown
                    && final(self)@ == Showing::<T, P, E>::Content(*final(content.unwrap())),
                _ => content is None && final(self)@ == old(self)@,
            },
            final(self).spec_holds_placeholder() == old(self).spec_holds_placeholder(),
    {
        self.display_view.as_mut()
    }

    /// The placeholder for a change in place, where it is what the view
    /// shows. The view goes on showing the placeholder, as the change leaves
    /// it.
    pub fn placeholder_mut(&mut self) -> (placeholder: Option<&mut P>)
        ensures
            match old(self)@ {
                Showing::Placeholder(shown) => placeholder is Some && *placeholder.unwrap()
                    == shown && final(self)@ == Showing::<T, P, E>::Placeholder(
                    *final(placeholder.unwrap()),
                ),
                _ => placeholder is None && final(self)@ == old(self)@,
            },
            final(self).spec_holds_placeholder() == old(self).spec_holds_placeholder(),
    {
        if self.display_view.is_some() || self.failure.is_some() {
            None
        } else {
            self.pending_view.as_mut()
        }
    }

    /// The error, where it is what the view shows.
    pub fn failure(&self) -> (failure: Option<&E>)
        ensures
            match self@ {
                Showing::Failure(shown) => failure == Some(&shown),
                _ => failure is None,
            },
    {
        if self.display_view.is_some() {
            None
        } else {
            self.failure.as_ref()
        }
    }
}

/// The size that an error asks for in layout negotiation: the width of its
/// message drawn as plain text, on one line.
pub fn failure_size(message: &str) -> (size: (usize, usize))
    ensures
        exists|text: StyledString|
            styled_spans(text) == seq![(message@, false)] && size.0 == #[trigger] styled_width(
                text,
            ),
        size.1 == 1,
{
    let text = styled_plain(message);
    (styled_measure(&text), 1)
}

/// A view that no longer shows its placeholder stays as it is, whatever is
/// reported to it afterwards: delivered content is shown for good.
pub proof fn lemma_settled_is_final<T, P, E>(
    showing: Showing<T, P, E>,
    results: Seq<AsyncResult<T, E>>,
)
    requires
        !(showing is Placeholder),
    ensures
        spec_deliver_all(showing, results) == showing,
        spec_wakes(showing, results) == 0,
    decreases results.len(),
{
    if results.len() > 0 {
        lemma_settled_is_final(showing, results.drop_last());
    }
}

/// While nothing but "not yet" is reported, a view stays as it is and asks
/// for no wake.
pub proof fn lemma_pending_changes_nothing<T, P, E>(
    showing: Showing<T, P, E>,
    results: Seq<AsyncResult<T, E>>,
)
    requires
        forall|j: int| 0 <= j < results.len() ==> results[j] is Pending,
    ensures
        spec_deliver_all(showing, results) == showing,
        spec_wakes(showing, results) == 0,
    decreases results.len(),
{
    if results.len() > 0 {
        lemma_pending_changes_nothing(showing, results.drop_last());
    }
}

/// A view that shows its placeholder is settled by the first report that is
/// not "not yet": from then on it shows what that report brought, whatever
/// follows, and the whole run asks for exactly one wake.
pub proof fn lemma_first_report_settles<T, P, E>(
    showing: Showing<T, P, E>,
    results: Seq<AsyncResult<T, E>>,
    first: int,
)
    requires
        showing is Placeholder,
        0 <= first < results.len(),
        forall|j: int| 0 <= j < first ==> results[j] is Pending,
        !(results[first] is Pending),
    ensures
        spec_deliver_all(showing, results) == spec_deliver(showing, results[first]),
        !(spec_deliver_all(showing, results) is Placeholder),
        spec_wakes(showing, results) == 1,
    decreases results.len(),
{
    let before = results.drop_last();
    if first == results.len() - 1 {
        lemma_pending_changes_nothing(showing, before);
    } else {
        lemma_first_report_settles(showing, before, first);
    }
}

/// No run of reports asks for more than one wake.
pub proof fn lemma_at_most_one_wake<T, P, E>(
    showing: Showing<T, P, E>,
    results: Seq<AsyncResult<T, E>>,
)
    ensures
        spec_wakes(showing, results) <= 1,
        spec_wakes(showing, results) == 1 ==> !(spec_deliver_all(showing, results) is Placeholder),
    decreases results.len(),
{
    if results.len() > 0 {
        let before = results.drop_last();
        lemma_at_most_one_wake(showing, before);
        if !(spec_deliver_all(showing, before) is Placeholder) {
            assert(!spec_settles(spec_deliver_all(showing, before), results.last()));
        }
    }
}

} // verus!
