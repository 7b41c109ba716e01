use vstd::prelude::*;

use crate::message::{Barrier, BarrierView, Message, MessageView};

verus! {

/// Why a merger refuses a message; its state is then unchanged.
#[derive(Debug, Clone, Copy, PartialEq, Eq, Structural)]
pub enum MergeError {
    /// The merged stop barrier has already been emitted.
    Terminated,
    /// The channel has delivered the barrier being aligned and may not be read.
    Blocked { channel: usize },
    /// A barrier whose epoch is below the last one seen on its channel.
    EpochRegression { channel: usize, last: u64, epoch: u64 },
    /// A barrier that does not match the one the other channels delivered.
    Misaligned { expected: u64, epoch: u64 },
}

/// Two barriers belong to the same alignment round: both stop, or neither
/// stops and their epochs are equal.
pub open spec fn aligned(a: BarrierView, b: BarrierView) -> bool {
    if a.is_stop() {
        b.is_stop()
    } else {
        !b.is_stop() && a.epoch == b.epoch
    }
}

/// Combines upstream channels into one stream and aligns their barriers.
pub struct Merger {
    /// Which channels have delivered the barrier being aligned.
    pub arrived: Vec<bool>,
    /// The first barrier of the current round.
    pub pending: Option<Barrier>,
    /// The epoch of the last non-stop barrier of each channel.
    pub last_epoch: Vec<Option<u64>>,
    pub terminated: bool,
    /// The last barrier that each channel delivered.
    pub received: Ghost<Seq<Option<BarrierView>>>,
}

/// Whether every flag is set.
fn all_set(v: &Vec<bool>) -> (r: bool)
    ensures
        r == (forall|j: int| 0 <= j < v@.len() ==> #[trigger] v@[j]),
{
    let mut i: usize = 0;
    while i < v.len()
        invariant
            i <= v.len(),
            forall|j: int| 0 <= j < i ==> #[trigger] v@[j],
        decreases v.len() - i,
    {
        if !v[i] {
            return false;
        }
        i = i + 1;
    }
    true
}

/// Clears every flag.
fn clear_all(v: &mut Vec<bool>)
    ensures
        final(v)@.len() == old(v)@.len(),
        forall|j: int| 0 <= j < final(v)@.len() ==> !#[trigger] final(v)@[j],
{
    let mut k: usize = 0;
    while k < v.len()
        invariant
            k <= v.len(),
            v@.len() == old(v)@.len(),
            forall|j: int| 0 <= j < k ==> !#[trigger] v@[j],
        decreases v.len() - k,
    {
        v[k] = false;
        k = k + 1;
    }
}

pub open spec fn merge_result_view(r: Result<Option<Message>, MergeError>) -> Result<Option<MessageView>, MergeError> {
    match r {
        Ok(Some(m)) => Ok(Some(m@)),
        Ok(None) => Ok(None),
        Err(e) => Err(e),
    }
}

impl Merger {
    /// What taking `m` from channel `c` yields.
    pub open spec fn step_output(self, c: int, m: MessageView) -> Result<Option<MessageView>, MergeError> {
        if self.terminated {
            Err(MergeError::Terminated)
        } else if self.arrived@[c] {
            Err(MergeError::Blocked { channel: c as usize })
        } else {
            match m {
                MessageView::Chunk(_) => Ok(Some(m)),
                MessageView::Barrier(b) => {
                    if !b.is_stop() && (self.last_epoch@[c] matches Some(e) && b.epoch < e) {
                        Err(MergeError::EpochRegression {
                            channel: c as usize,
                            last: self.last_epoch@[c]->Some_0,
                            epoch: b.epoch,
                        })
                    } else if self.pending matches Some(p) && !aligned(p@, b) {
                        Err(MergeError::Misaligned { expected: self.pending->Some_0.epoch, epoch: b.epoch })
                    } else if forall|j: int| 0 <= j < self.num_inputs() && j != c ==> #[trigger] self.arrived@[j] {
                        Ok(Some(MessageView::Barrier(
                            if self.pending is Some { self.pending->Some_0@ } else { b },
                        )))
                    } else {
                        Ok(None)
                    }
                },
            }
        }
    }

    pub open spec fn num_inputs(self) -> nat {
        self.arrived@.len()
    }

    pub open spec fn wf(self) -> bool {
        &&& self.last_epoch@.len() == self.arrived@.len()
        &&& self.received@.len() == self.arrived@.len()
        &&& (self.pending is None ==> forall|j: int| 0 <= j < self.arrived@.len() ==> !#[trigger] self.arrived@[j])
        &&& forall|j: int| 0 <= j < self.arrived@.len() && #[trigger] self.arrived@[j] ==> {
            &&& self.pending is Some
            &&& (self.received@[j] matches Some(b) && aligned(self.pending->Some_0@, b))
        }
        &&& forall|j: int| 0 <= j < self.arrived@.len() ==> match #[trigger] self.received@[j] {
            Some(b) => !b.is_stop() ==> self.last_epoch@[j] == Some(b.epoch),
            None => self.last_epoch@[j] is None,
        }
    }

    /// A merger over `n` upstream channels, none of which has delivered anything.
    pub fn new(n: usize) -> (r: Merger)
        ensures
            r.wf(),
            r.num_inputs() == n,
            r.pending is None,
            !r.terminated,
            forall|j: int| 0 <= j < n ==> !#[trigger] r.arrived@[j] && r.last_epoch@[j] is None,
    {
        let mut arrived: Vec<bool> = Vec::new();
        let mut last_epoch: Vec<Option<u64>> = Vec::new();
        let mut i: usize = 0;
        while i < n
            invariant
                i <= n,
                arrived@.len() == i,
                last_epoch@.len() == i,
                forall|j: int| 0 <= j < i ==> !#[trigger] arrived@[j],
                forall|j: int| 0 <= j < i ==> #[trigger] last_epoch@[j] is None,
            decreases n - i,
        {
            arrived.push(false);
            last_epoch.push(None);
            i = i + 1;
        }
        let r = Merger {
            arrived,
            pending: None,
            last_epoch,
            terminated: false,
            received: Ghost(Seq::new(n as nat, |j: int| None)),
        };
        assert forall|j: int| 0 <= j < n implies match #[trigger] r.received@[j] {
            Some(b) => !b.is_stop() ==> r.last_epoch@[j] == Some(b.epoch),
            None => r.last_epoch@[j] is None,
        } by {
            assert(r.received@[j] is None);
            assert(r.last_epoch@[j] is None);
        }
        r
    }

    /// Whether channel `c` may be read: the merger has not terminated and `c`
    /// has not delivered the barrier being aligned.
    pub fn can_pull(&self, c: usize) -> (r: bool)
        requires
            c < self.num_inputs(),
        ensures
            r == (!self.terminated && !self.arrived@[c as int]),
    {
        !self.terminated && !self.arrived[c]
    }

    /// Takes `msg` from channel `c`. A chunk passes at once; a barrier is held
    /// until every channel has delivered one of its round, and then the
    /// merged barrier (the first one of the round) is returned.
    pub fn on_message(&mut self, c: usize, msg: Message) -> (r: Result<Option<Message>, MergeError>)
        requires
            old(self).wf(),
            c < old(self).num_inputs(),
        ensures
            final(self).wf(),
            final(self).num_inputs() == old(self).num_inputs(),
            merge_result_view(r) == old(self).step_output(c as int, msg@),
            forall|j: int| 0 <= j < old(self).num_inputs() && (#[trigger] old(self).last_epoch@[j]) is Some ==> (
                final(self).last_epoch@[j] matches Some(e) && e >= old(self).last_epoch@[j]->Some_0),
            r is Err ==> *final(self) == *old(self),
            old(self).terminated ==> r == Err::<Option<Message>, MergeError>(MergeError::Terminated),
            !old(self).terminated && old(self).arrived@[c as int] ==> r == Err::<Option<Message>, MergeError>(
                MergeError::Blocked { channel: c },
            ),
            !old(self).terminated && !old(self).arrived@[c as int] ==> match msg@ {
                MessageView::Chunk(_) => (r matches Ok(Some(m)) && m@ == msg@) && *final(self) == *old(self),
                MessageView::Barrier(b) => {
                    let regress = !b.is_stop() && (old(self).last_epoch@[c as int] matches Some(e) && b.epoch < e);
                    let misaligned = old(self).pending matches Some(p) && !aligned(p@, b);
                    let merged = if old(self).pending is Some {
                        old(self).pending->Some_0@
                    } else {
                        b
                    };
                    let complete = forall|j: int|
                        0 <= j < old(self).num_inputs() && j != c ==> #[trigger] old(self).arrived@[j];
                    &&& regress ==> r == Err::<Option<Message>, MergeError>(MergeError::EpochRegression {
                        channel: c,
                        last: old(self).last_epoch@[c as int]->Some_0,
                        epoch: b.epoch,
                    })
                    &&& !regress && misaligned ==> r == Err::<Option<Message>, MergeError>(MergeError::Misaligned {
                        expected: old(self).pending->Some_0.epoch,
                        epoch: b.epoch,
                    })
                    &&& !regress && !misaligned ==> {
                        &&& r is Ok
                        &&& final(self).received@ == old(self).received@.update(c as int, Some(b))
                        &&& final(self).last_epoch@ == (if b.is_stop() {
                            old(self).last_epoch@
                        } else {
                            old(self).last_epoch@.update(c as int, Some(b.epoch))
                        })
                        &&& (r matches Ok(Some(m)) <==> complete)
                        &&& complete ==> {
                            &&& (r matches Ok(Some(m)) && m@ == MessageView::Barrier(merged))
                            &&& final(self).pending is None
                            &&& final(self).terminated == merged.is_stop()
                            &&& forall|j: int| 0 <= j < old(self).num_inputs() ==> (
                                #[trigger] final(self).received@[j] matches Some(x) && aligned(merged, x))
                            &&& forall|j: int| 0 <= j < old(self).num_inputs() ==> !#[trigger] final(self).arrived@[j]
                        }
                        &&& !complete ==> {
                            &&& (final(self).pending matches Some(p) && p@ == merged)
                            &&& final(self).arrived@ == old(self).arrived@.update(c as int, true)
                            &&& !final(self).terminated
                        }
                    }
                },
            },
    {
        if self.terminated {
            return Err(MergeError::Terminated);
        }
        if self.arrived[c] {
            return Err(MergeError::Blocked { channel: c });
        }
        match msg {
            Message::Chunk(ch) => Ok(Some(Message::Chunk(ch))),
            Message::Barrier(b) => {
                let stop = b.is_stop();
                if !stop {
                    match self.last_epoch[c] {
                        Some(e) => {
                            if b.epoch < e {
                                return Err(MergeError::EpochRegression { channel: c, last: e, epoch: b.epoch });
                            }
                        },
                        None => {},
                    }
                }
                match &self.pending {
                    Some(p) => {
                        let same = if p.is_stop() { stop } else { !stop && p.epoch == b.epoch };
                        if !same {
                            return Err(MergeError::Misaligned { expected: p.epoch, epoch: b.epoch });
                        }
                    },
                    None => {},
                }
                let ghost old_self = *self;
                if !stop {
                    self.last_epoch[c] = Some(b.epoch);
                }
                self.arrived[c] = true;
                self.received = Ghost(self.received@.update(c as int, Some(b@)));
                if self.pending.is_none() {
                    self.pending = Some(b);
                }
                let n = self.arrived.len();
                let all = all_set(&self.arrived);
                proof {
                    assert(self.arrived@ == old_self.arrived@.update(c as int, true));
                    if all {
                        assert forall|j: int| 0 <= j < n && j != c implies #[trigger] old_self.arrived@[j] by {
                            assert(self.arrived@[j]);
                        }
                        assert forall|j: int| 0 <= j < n implies (#[trigger] self.received@[j] matches Some(x)
                            && aligned(self.pending->Some_0@, x)) by {
                            if j != c {
                                assert(old_self.arrived@[j]);
                            }
                        }
                    } else {
                        let j = choose|j: int| 0 <= j < n && !#[trigger] self.arrived@[j];
                        assert(j != c && !old_self.arrived@[j]);
                    }
                }
                if all {
                    clear_all(&mut self.arrived);
                    let merged = self.pending.take();
                    match merged {
                        Some(m) => {
                            self.terminated = m.is_stop();
                            Ok(Some(Message::Barrier(m)))
                        },
                        None => Ok(None),
                    }
                } else {
                    Ok(None)
                }
            },
        }
    }
}

} // verus!
