//! The dispatch side: the decisions that the single consumer makes while it
//! runs one entry through the ordered filter chain.
//!
//! The consumer asks a `ChainRun` what to do, invokes the filter that it
//! names, and records whether the filter handed the entry on. The run stops
//! at the first filter that swallows the entry.
use vstd::prelude::*;

verus! {

/// Milliseconds that the consumer waits when it finds the queue empty.
pub const IDLE_BACKOFF_MS: u64 = 3000;

/// What the consumer does next with the entry in flight.
#[derive(Clone, Copy, Debug, PartialEq, Eq, Structural)]
pub enum ChainStep {
    /// Hand the entry to the filter at this position.
    Invoke(usize),
    /// Every filter handed the entry on: the chain is complete.
    Delivered,
    /// A filter swallowed the entry: it is dropped.
    Swallowed,
}

/// The abstract state of a run.
pub struct ChainView {
    pub len: nat,
    pub pos: nat,
    pub swallowed: bool,
}

pub open spec fn chain_start(len: nat) -> ChainView {
    ChainView { len, pos: 0, swallowed: false }
}

pub open spec fn step_of(v: ChainView) -> ChainStep {
    if v.swallowed {
        ChainStep::Swallowed
    } else if v.pos < v.len {
        ChainStep::Invoke(v.pos as usize)
    } else {
        ChainStep::Delivered
    }
}

/// The state after the filter in turn answered: `kept` when it handed the
/// entry on. An answer when no filter is in turn changes nothing.
pub open spec fn record_view(v: ChainView, kept: bool) -> ChainView {
    if v.swallowed || v.pos >= v.len {
        v
    } else if kept {
        ChainView { pos: v.pos + 1, ..v }
    } else {
        ChainView { swallowed: true, ..v }
    }
}

/// The state after the answers `outcomes`, in order.
pub open spec fn feed(v: ChainView, outcomes: Seq<bool>) -> ChainView
    decreases outcomes.len(),
{
    if outcomes.len() == 0 {
        v
    } else {
        record_view(feed(v, outcomes.drop_last()), outcomes.last())
    }
}

/// The run of one entry through a chain of filters.
pub struct ChainRun {
    len: usize,
    pos: usize,
    swallowed: bool,
}

impl View for ChainRun {
    type V = ChainView;

    closed spec fn view(&self) -> ChainView {
        ChainView { len: self.len as nat, pos: self.pos as nat, swallowed: self.swallowed }
    }
}

impl ChainRun {
    pub closed spec fn wf(&self) -> bool {
        self.pos <= self.len
    }

    /// A run through a chain of `len` filters.
    pub fn new(len: usize) -> (r: Self)
        ensures
            r.wf(),
            r@ == chain_start(len as nat),
    {
        ChainRun { len, pos: 0, swallowed: false }
    }

    /// What to do now.
    pub fn step(&self) -> (r: ChainStep)
        requires
            self.wf(),
        ensures
            r == step_of(self@),
    {
        if self.swallowed {
            ChainStep::Swallowed
        } else if self.pos < self.len {
            ChainStep::Invoke(self.pos)
        } else {
            ChainStep::Delivered
        }
    }

    /// Records the answer of the filter in turn and says what to do next.
    pub fn record(&mut self, kept: bool) -> (r: ChainStep)
        requires
            old(self).wf(),
        ensures
            final(self).wf(),
            final(self)@ == record_view(old(self)@, kept),
            r == step_of(final(self)@),
    {
        if !self.swallowed && self.pos < self.len {
            if kept {
                self.pos = self.pos + 1;
            } else {
                self.swallowed = true;
            }
        }
        self.step()
    }
}

proof fn lemma_feed_prefix(len: nat, outcomes: Seq<bool>, j: nat, m: nat)
    requires
        j < len,
        j < outcomes.len(),
        forall|i: int| 0 <= i < j ==> #[trigger] outcomes[i],
        !outcomes[j as int],
        m <= outcomes.len(),
    ensures
        m <= j ==> feed(chain_start(len), outcomes.take(m as int)) == (ChainView {
            len,
            pos: m,
            swallowed: false,
        }),
        m > j ==> feed(chain_start(len), outcomes.take(m as int)) == (ChainView {
            len,
            pos: j,
            swallowed: true,
        }),
    decreases m,
{
    if m > 0 {
        lemma_feed_prefix(len, outcomes, j, (m - 1) as nat);
        assert(outcomes.take(m as int).drop_last() =~= outcomes.take(m - 1));
        assert(outcomes.take(m as int).last() == outcomes[m - 1]);
    } else {
        assert(outcomes.take(0) =~= Seq::<bool>::empty());
    }
}

/// Short circuit: when the filters before position `j` hand the entry on
/// and the filter at `j` swallows it, the run invokes the filters `0..=j`
/// in order, and from then on only reports the entry swallowed: no filter
/// after `j` is invoked and the entry is never delivered.
pub proof fn lemma_short_circuit(len: nat, outcomes: Seq<bool>, j: nat)
    requires
        j < len,
        j < outcomes.len(),
        forall|i: int| 0 <= i < j ==> #[trigger] outcomes[i],
        !outcomes[j as int],
    ensures
        forall|m: nat|
            m <= j ==> #[trigger] step_of(feed(chain_start(len), outcomes.take(m as int)))
                == ChainStep::Invoke(m as usize),
        forall|m: nat|
            j < m <= outcomes.len() ==> #[trigger] step_of(
                feed(chain_start(len), outcomes.take(m as int)),
            ) == ChainStep::Swallowed,
{
    assert forall|m: nat| m <= j implies #[trigger] step_of(
        feed(chain_start(len), outcomes.take(m as int)),
    ) == ChainStep::Invoke(m as usize) by {
        lemma_feed_prefix(len, outcomes, j, m);
    }
    assert forall|m: nat| j < m <= outcomes.len() implies #[trigger] step_of(
        feed(chain_start(len), outcomes.take(m as int)),
    ) == ChainStep::Swallowed by {
        lemma_feed_prefix(len, outcomes, j, m);
    }
}

proof fn lemma_feed_all_kept(len: nat, outcomes: Seq<bool>, m: nat)
    requires
        m <= len,
        m <= outcomes.len(),
        forall|i: int| 0 <= i < outcomes.len() ==> #[trigger] outcomes[i],
    ensures
        feed(chain_start(len), outcomes.take(m as int)) == (ChainView { len, pos: m, swallowed: false }),
    decreases m,
{
    if m > 0 {
        lemma_feed_all_kept(len, outcomes, (m - 1) as nat);
        assert(outcomes.take(m as int).drop_last() =~= outcomes.take(m - 1));
        assert(outcomes.take(m as int).last() == outcomes[m - 1]);
    } else {
        assert(outcomes.take(0) =~= Seq::<bool>::empty());
    }
}

/// An entry that every filter hands on invokes each of them once, in order,
/// and is then delivered.
pub proof fn lemma_all_kept_delivers(len: nat, outcomes: Seq<bool>)
    requires
        outcomes.len() == len,
        forall|i: int| 0 <= i < len ==> #[trigger] outcomes[i],
    ensures
        forall|m: nat|
            m < len ==> #[trigger] step_of(feed(chain_start(len), outcomes.take(m as int)))
                == ChainStep::Invoke(m as usize),
        step_of(feed(chain_start(len), outcomes)) == ChainStep::Delivered,
{
    assert forall|m: nat| m < len implies #[trigger] step_of(
        feed(chain_start(len), outcomes.take(m as int)),
    ) == ChainStep::Invoke(m as usize) by {
        lemma_feed_all_kept(len, outcomes, m);
    }
    lemma_feed_all_kept(len, outcomes, len);
    assert(outcomes.take(len as int) =~= outcomes);
}

} // verus!
