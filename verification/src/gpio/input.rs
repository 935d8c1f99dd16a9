//! The reading side of a pin, and the rules by which it waits for levels
//! and edges.

use crate::gpio::Output;
use crate::gpio::PinLevel;
use crate::utils::SignalRx;
use vstd::prelude::*;

verus! {

/// The handle that reads the level of a pin from the output that drives
/// it, and on which the levels that the output publishes arrive.
pub struct Input {
    w: SignalRx<PinLevel>,
}

impl Input {
    /// The side of the signal on which the levels set by the output arrive.
    pub closed spec fn signal(&self) -> SignalRx<PinLevel> {
        self.w
    }

    /// The input on which the levels that an output publishes arrive on
    /// `w`.
    pub(crate) fn wired(w: SignalRx<PinLevel>) -> (input: Self)
        ensures
            input.signal() == w,
    {
        Self { w }
    }

    /// Whether the pin that `output` drives is high now.
    pub fn is_high(&mut self, output: &Output) -> (high: bool)
        ensures
            high == (output.level() == PinLevel::High),
            *final(self) == *old(self),
    {
        output.read().is_high()
    }

    /// Whether the pin that `output` drives is low now.
    pub fn is_low(&mut self, output: &Output) -> (low: bool)
        ensures
            low == (output.level() == PinLevel::Low),
            *final(self) == *old(self),
    {
        !self.is_high(output)
    }

    /// The level of the pin that `output` drives.
    pub fn read(&mut self, output: &Output) -> (level: PinLevel)
        ensures
            level == output.level(),
            *final(self) == *old(self),
    {
        output.read()
    }

    /// Carries `wait` as far as reading the pin can: reads the level of the
    /// pin that `output` drives whenever the wait asks for it, and lets the
    /// wait take note of it. On return the wait is over or needs a level
    /// that the output publishes.
    pub fn advance(&mut self, output: &Output, wait: &mut EdgeWait) -> (step: WaitStep)
        ensures
            *final(self) == *old(self),
            (final(wait)@, final(wait).sampled()) == settled(
                old(wait)@,
                old(wait).sampled(),
                output.level(),
            ),
            step == EdgeWait::step_of(final(wait)@, final(wait).sampled()),
            step != WaitStep::Sample,
    {
        let mut step = wait.step();
        while step == WaitStep::Sample
            invariant
                *self == *old(self),
                step == EdgeWait::step_of(wait@, wait.sampled()),
                settled(wait@, wait.sampled(), output.level()) == settled(
                    old(wait)@,
                    old(wait).sampled(),
                    output.level(),
                ),
            decreases wait@.len(), if wait.sampled() { 0int } else { 1int },
        {
            let level = self.read(output);
            wait.observe(level);
            step = wait.step();
        }
        step
    }

    /// The side of the signal on which the levels set by the output arrive,
    /// for the task that waits on it. What that task does to it is done to
    /// this input.
    pub fn published(&mut self) -> (w: &mut SignalRx<PinLevel>)
        ensures
            *w == old(self).signal(),
            final(self).signal() == *final(w),
    {
        &mut self.w
    }
}

/// What is left of a wait, and whether the pin counts as read, after the
/// pin was read at `level` as often as the wait asked for it: each level
/// waited for that is `level` is reached, up to the first that is not.
pub open spec fn settled(pending: Seq<PinLevel>, sampled: bool, level: PinLevel) -> (Seq<
    PinLevel,
>, bool)
    decreases pending.len(), (if sampled { 0int } else { 1int }),
{
    if pending.len() == 0 || sampled {
        (pending, sampled)
    } else if pending[0] == level {
        settled(pending.drop_first(), false, level)
    } else {
        (pending, true)
    }
}

/// What is left of a wait after `level` was observed: where `level` is the
/// level waited for first, that level is reached and the rest remains.
pub open spec fn pending_after(pending: Seq<PinLevel>, level: PinLevel) -> Seq<PinLevel> {
    if pending.len() > 0 && pending[0] == level {
        pending.drop_first()
    } else {
        pending
    }
}

/// What is left of a wait after the levels of `observed` were observed one
/// after the other.
pub open spec fn pending_after_all(pending: Seq<PinLevel>, observed: Seq<PinLevel>) -> Seq<
    PinLevel,
>
    decreases observed.len(),
{
    if observed.len() == 0 {
        pending
    } else {
        pending_after(pending_after_all(pending, observed.drop_last()), observed.last())
    }
}

/// What a waiting task does next.
#[derive(Clone, Copy, Debug, PartialEq, Eq, Structural)]
pub enum WaitStep {
    /// The wait is over.
    Done,
    /// Read the level of the pin and report it.
    Sample,
    /// Suspend until the output publishes a level, and report that level.
    Await,
}

/// A wait for a level or an edge of a pin. Its view is the levels that are
/// still to be observed, in their order: one level for a wait for a level,
/// the level before the edge and the level after it for a wait for an edge.
///
/// A wait for a level is over at once where the pin is at that level, so
/// each level is looked for first in the pin itself and then among the
/// levels that the output publishes. An edge therefore needs the pin to be
/// seen on its far side before it is seen on its near side: a level set
/// again to what it was is no edge.
#[derive(Clone, Copy, Debug)]
pub struct EdgeWait {
    first: Option<PinLevel>,
    last: Option<PinLevel>,
    sampled: bool,
}

impl View for EdgeWait {
    type V = Seq<PinLevel>;

    closed spec fn view(&self) -> Seq<PinLevel> {
        match (self.first, self.last) {
            (Some(a), Some(b)) => seq![a, b],
            (Some(a), None) => seq![a],
            (None, Some(b)) => seq![b],
            (None, None) => Seq::empty(),
        }
    }
}

impl EdgeWait {
    /// Whether the pin itself was read since the wait last came a level
    /// further.
    pub closed spec fn sampled(&self) -> bool {
        self.sampled
    }

    /// What the task does next in a wait with `pending` left: nothing more
    /// once no level is left, else it reads the pin once and then awaits
    /// what is published.
    pub open spec fn step_of(pending: Seq<PinLevel>, sampled: bool) -> WaitStep {
        if pending.len() == 0 {
            WaitStep::Done
        } else if !sampled {
            WaitStep::Sample
        } else {
            WaitStep::Await
        }
    }

    /// Whether the pin counts as read after `level` was observed: it does
    /// while the level waited for is not `level`, and is to be read anew
    /// once that level was reached.
    pub open spec fn sampled_after(pending: Seq<PinLevel>, sampled: bool, level: PinLevel) -> bool {
        if pending.len() == 0 {
            sampled
        } else {
            pending[0] != level
        }
    }

    /// A wait until the pin is at `target`.
    pub fn for_level(target: PinLevel) -> (wait: Self)
        ensures
            wait@ == seq![target],
            !wait.sampled(),
    {
        Self { first: None, last: Some(target), sampled: false }
    }

    /// A wait until the pin is high.
    pub fn for_high() -> (wait: Self)
        ensures
            wait@ == seq![PinLevel::High],
            !wait.sampled(),
    {
        Self::for_level(PinLevel::High)
    }

    /// A wait until the pin is low.
    pub fn for_low() -> (wait: Self)
        ensures
            wait@ == seq![PinLevel::Low],
            !wait.sampled(),
    {
        Self::for_level(PinLevel::Low)
    }

    /// A wait until the pin was low and is then high.
    pub fn for_rising_edge() -> (wait: Self)
        ensures
            wait@ == seq![PinLevel::Low, PinLevel::High],
            !wait.sampled(),
    {
        Self { first: Some(PinLevel::Low), last: Some(PinLevel::High), sampled: false }
    }

    /// A wait until the pin was high and is then low.
    pub fn for_falling_edge() -> (wait: Self)
        ensures
            wait@ == seq![PinLevel::High, PinLevel::Low],
            !wait.sampled(),
    {
        Self { first: Some(PinLevel::High), last: Some(PinLevel::Low), sampled: false }
    }

    /// A wait until the pin, which is at `current`, is at the other level.
    pub fn for_any_edge(current: PinLevel) -> (wait: Self)
        ensures
            wait@ == seq![current.inverse()],
            !wait.sampled(),
    {
        Self::for_level(current.opposite())
    }

    /// What the task does next.
    pub fn step(&self) -> (step: WaitStep)
        ensures
            step == Self::step_of(self@, self.sampled()),
    {
        if self.first.is_none() && self.last.is_none() {
            WaitStep::Done
        } else if !self.sampled {
            WaitStep::Sample
        } else {
            WaitStep::Await
        }
    }

    /// Whether the wait is over.
    pub fn is_done(&self) -> (done: bool)
        ensures
            done == (self@.len() == 0),
    {
        self.first.is_none() && self.last.is_none()
    }

    /// Takes note of `level`, read from the pin or published by the output.
    /// Where it is the level waited for, the wait comes one level further
    /// and the pin is to be read anew; else the wait stays where it is and
    /// goes on with what is published.
    pub fn observe(&mut self, level: PinLevel)
        ensures
            final(self)@ == pending_after(old(self)@, level),
            final(self).sampled() == Self::sampled_after(old(self)@, old(self).sampled(), level),
    {
        match self.first {
            Some(target) => {
                if target == level {
                    self.first = None;
                    self.sampled = false;
                    assert(seq![target, self.last->0].drop_first() =~= seq![self.last->0]);
                    assert(seq![target].drop_first() =~= Seq::<PinLevel>::empty());
                } else {
                    self.sampled = true;
                }
            },
            None => {
                match self.last {
                    Some(target) => {
                        if target == level {
                            self.last = None;
                            self.sampled = false;
                            assert(seq![target].drop_first() =~= Seq::<PinLevel>::empty());
                        } else {
                            self.sampled = true;
                        }
                    },
                    None => {},
                }
            },
        }
    }
}

/// Whether `observed` holds `level`.
pub open spec fn reaches(observed: Seq<PinLevel>, level: PinLevel) -> bool {
    exists|i: int| 0 <= i < observed.len() && observed[i] == level
}

/// Whether `observed` holds `before` and, somewhere behind it, `after`.
pub open spec fn crosses(observed: Seq<PinLevel>, before: PinLevel, after: PinLevel) -> bool {
    exists|i: int, j: int|
        0 <= i < j < observed.len() && observed[i] == before && observed[j] == after
}

/// A wait for a level is over exactly when that level was observed.
pub proof fn lemma_level_wait_over(target: PinLevel, observed: Seq<PinLevel>)
    ensures
        pending_after_all(seq![target], observed).len() == 0 <==> reaches(observed, target),
        !reaches(observed, target) ==> pending_after_all(seq![target], observed) == seq![target],
    decreases observed.len(),
{
    if observed.len() > 0 {
        let front = observed.drop_last();
        lemma_level_wait_over(target, front);
        if reaches(front, target) {
            let i = choose|i: int| 0 <= i < front.len() && front[i] == target;
            assert(observed[i] == target);
        }
        if observed.last() == target {
            assert(observed[observed.len() - 1] == target);
            assert(seq![target].drop_first().len() == 0);
        }
        if reaches(observed, target) && !reaches(front, target) {
            let i = choose|i: int| 0 <= i < observed.len() && observed[i] == target;
            if i < front.len() {
                assert(front[i] == target);
            }
        }
    }
}

/// A wait for an edge is over exactly when the level before the edge was
/// observed and, later, the level after it. Until the level before the edge
/// was observed nothing of the wait is done.
pub proof fn lemma_edge_wait_over(before: PinLevel, after: PinLevel, observed: Seq<PinLevel>)
    requires
        before != after,
    ensures
        pending_after_all(seq![before, after], observed).len() == 0 <==> crosses(
            observed,
            before,
            after,
        ),
        !reaches(observed, before) ==> pending_after_all(seq![before, after], observed)
            == seq![before, after],
        reaches(observed, before) && !crosses(observed, before, after) ==> pending_after_all(
            seq![before, after],
            observed,
        ) == seq![after],
    decreases observed.len(),
{
    let both = seq![before, after];
    assert(both.drop_first() =~= seq![after]);
    assert(seq![after].drop_first().len() == 0);
    if observed.len() > 0 {
        let front = observed.drop_last();
        let n = front.len() as int;
        lemma_edge_wait_over(before, after, front);
        if reaches(front, before) {
            let i = choose|i: int| 0 <= i < front.len() && front[i] == before;
            assert(observed[i] == before);
            if observed.last() == after {
                assert(0 <= i < n < observed.len() && observed[i] == before && observed[n]
                    == after);
            }
        }
        if crosses(front, before, after) {
            let (i, j) = choose|i: int, j: int|
                0 <= i < j < front.len() && front[i] == before && front[j] == after;
            assert(0 <= i < j < observed.len() && observed[i] == before && observed[j] == after);
        }
        if observed.last() == before {
            assert(observed[n] == before);
        }
        if reaches(observed, before) && !reaches(front, before) {
            let i = choose|i: int| 0 <= i < observed.len() && observed[i] == before;
            if i < n {
                assert(front[i] == before);
            }
        }
        if crosses(observed, before, after) && !crosses(front, before, after) {
            let (i, j) = choose|i: int, j: int|
                0 <= i < j < observed.len() && observed[i] == before && observed[j] == after;
            if j < n {
                assert(0 <= i < j < front.len() && front[i] == before && front[j] == after);
            }
            assert(front[i] == before);
        }
    }
}

/// A wait that is over stays over, whatever is observed later.
pub proof fn lemma_wait_stays_over(
    pending: Seq<PinLevel>,
    observed: Seq<PinLevel>,
    later: Seq<PinLevel>,
)
    requires
        pending_after_all(pending, observed).len() == 0,
    ensures
        pending_after_all(pending, observed + later).len() == 0,
    decreases later.len(),
{
    if later.len() == 0 {
        assert(observed + later =~= observed);
    } else {
        lemma_wait_stays_over(pending, observed, later.drop_last());
        assert((observed + later).drop_last() =~= observed + later.drop_last());
    }
}

} // verus!
