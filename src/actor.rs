use vstd::prelude::*;

use crate::dispatch::{dispatch_spec, outputs_view, DispatchError, Dispatcher};
use crate::merge::{MergeError, Merger};
use crate::message::{rows_view, Chunk, Message, MessageView};

verus! {

/// An actor initializes until its first pull, then runs until it forwards a stop barrier.
#[derive(Debug, Clone, Copy, PartialEq, Eq, Structural)]
pub enum ActorState {
    Initializing,
    Running,
    Stopped,
}

/// Why an actor fails to take a message; such a failure is fatal to it.
#[derive(Debug, Clone, Copy, PartialEq, Eq, Structural)]
pub enum ActorError {
    /// The actor has forwarded its stop barrier and takes nothing more.
    Stopped,
    Merge(MergeError),
    Dispatch(DispatchError),
    /// The projection names a column that a row does not have.
    ProjectOutOfRange { column: usize },
}

/// Every projected column exists in every row.
pub open spec fn project_ok(rows: Seq<Seq<i64>>, cols: Seq<usize>) -> bool {
    forall|i: int, k: int| 0 <= i < rows.len() && 0 <= k < cols.len() ==> #[trigger] cols[k] < #[trigger] rows[i].len()
}

/// Each row reduced to the columns `cols`, in that order.
pub open spec fn project_rows(rows: Seq<Seq<i64>>, cols: Seq<usize>) -> Seq<Seq<i64>> {
    rows.map_values(|r: Seq<i64>| cols.map_values(|c: usize| r[c as int]))
}

/// What the operator chain makes of a merged message; `None` where it fails.
/// Barriers pass through unchanged.
pub open spec fn apply_chain(project: Option<Seq<usize>>, m: MessageView) -> Option<MessageView> {
    match (project, m) {
        (Some(cols), MessageView::Chunk(rows)) => if project_ok(rows, cols) {
            Some(MessageView::Chunk(project_rows(rows, cols)))
        } else {
            None
        },
        _ => Some(m),
    }
}

/// The stop barrier closes a history: it is its last message and appears nowhere else.
pub open spec fn stop_closes(h: Seq<MessageView>, stopped: bool) -> bool {
    &&& forall|i: int| 0 <= i < h.len() - 1 ==> !(#[trigger] h[i]).is_stop()
    &&& stopped <==> (h.len() > 0 && h.last().is_stop())
}

/// What taking `msg` from input `c` does to an actor `old`, making it `new`
/// and returning `r`.
pub open spec fn input_step(
    old: Actor,
    c: usize,
    msg: MessageView,
    r: Result<Vec<Option<Message>>, ActorError>,
    new: Actor,
) -> bool {
    &&& (new.fragment_id == old.fragment_id)
    &&& (new.merger.num_inputs() == old.merger.num_inputs())
    &&& (new.dispatcher.outputs == old.dispatcher.outputs)
    &&& (new.project == old.project)
    &&& (r matches Ok(v) ==> v@.len() == 0 || v@.len() == old.dispatcher.outputs)
    &&& (r is Err ==> new.state == old.state && new.emitted == old.emitted)
    &&& (old.state == ActorState::Stopped ==> r == Err::<Vec<Option<Message>>, ActorError>(ActorError::Stopped))
    &&& (old.state != ActorState::Stopped ==> match old.merger.step_output(c as int, msg) {
        Err(e) => r == Err::<Vec<Option<Message>>, ActorError>(ActorError::Merge(e)),
        Ok(None) => (r matches Ok(v) && v@.len() == 0) && new.state == ActorState::Running
            && new.emitted == old.emitted,
        Ok(Some(m)) => match apply_chain(old.project_view(), m) {
            None => r is Err && r->Err_0 is ProjectOutOfRange,
            Some(m2) => match dispatch_spec(
                old.dispatcher.kind,
                old.dispatcher.column_idx as nat,
                old.dispatcher.outputs as nat,
                old.dispatcher.next as nat,
                m2,
            ) {
                None => r == Err::<Vec<Option<Message>>, ActorError>(ActorError::Dispatch(
                    DispatchError::ColumnOutOfRange { column_idx: old.dispatcher.column_idx },
                )),
                Some(outs) => {
                    &&& (r matches Ok(v) && outputs_view(v@) == outs)
                    &&& new.emitted@ == old.emitted@.push(m2)
                    &&& new.state == (if m2.is_stop() {
                        ActorState::Stopped
                    } else {
                        ActorState::Running
                    })
                },
            },
        },
    })
}

/// One running instance of a fragment: merger, operator chain and dispatcher.
pub struct Actor {
    pub fragment_id: u32,
    pub state: ActorState,
    pub merger: Merger,
    /// The columns that the projection keeps; `None` passes rows through.
    pub project: Option<Vec<usize>>,
    pub dispatcher: Dispatcher,
    /// Every message the actor has received from its merger and handed, after
    /// the operator chain, to its dispatcher. Barriers pass the chain unchanged.
    pub emitted: Ghost<Seq<MessageView>>,
}

impl Actor {
    pub open spec fn project_view(self) -> Option<Seq<usize>> {
        match self.project {
            Some(cols) => Some(cols@),
            None => None,
        }
    }

    pub open spec fn wf(self) -> bool {
        &&& self.merger.wf()
        &&& self.dispatcher.wf()
        &&& stop_closes(self.emitted@, self.state == ActorState::Stopped)
        &&& self.state == ActorState::Initializing ==> self.emitted@.len() == 0
    }

    /// An actor of fragment `fragment_id` over `inputs` upstream channels. A
    /// source (no upstream) starts running at once.
    pub fn new(fragment_id: u32, inputs: usize, project: Option<Vec<usize>>, dispatcher: Dispatcher) -> (r: Actor)
        requires
            dispatcher.wf(),
        ensures
            r.wf(),
            r.fragment_id == fragment_id,
            r.merger.num_inputs() == inputs,
            r.merger.pending is None,
            !r.merger.terminated,
            forall|j: int| 0 <= j < inputs ==> !#[trigger] r.merger.arrived@[j] && r.merger.last_epoch@[j] is None,
            r.project == project,
            r.dispatcher == dispatcher,
            r.emitted@.len() == 0,
            r.state == (if inputs == 0 { ActorState::Running } else { ActorState::Initializing }),
    {
        Actor {
            fragment_id,
            state: if inputs == 0 { ActorState::Running } else { ActorState::Initializing },
            merger: Merger::new(inputs),
            project,
            dispatcher,
            emitted: Ghost(Seq::empty()),
        }
    }

    /// Takes `msg` from upstream channel `c`. What the merger releases goes
    /// through the operator chain and the dispatcher; element `d` of the
    /// result is what goes to downstream `d` (empty when nothing was released).
    /// On a merged stop barrier the actor forwards it and stops.
    pub fn on_input(&mut self, c: usize, msg: Message) -> (r: Result<Vec<Option<Message>>, ActorError>)
        requires
            old(self).wf(),
            c < old(self).merger.num_inputs(),
        ensures
            final(self).wf(),
            input_step(*old(self), c, msg@, r, *final(self)),
    {
        if self.state == ActorState::Stopped {
            return Err(ActorError::Stopped);
        }
        let ghost old_self = *self;
        let merged = match self.merger.on_message(c, msg) {
            Ok(m) => m,
            Err(e) => {
                return Err(ActorError::Merge(e));
            },
        };
        let m = match merged {
            Some(m) => m,
            None => {
                self.state = ActorState::Running;
                return Ok(Vec::new());
            },
        };
        let m2 = match apply_project(&self.project, m) {
            Ok(x) => x,
            Err(e) => {
                return Err(e);
            },
        };
        let stop = m2.is_stop();
        let ghost v2 = m2@;
        match self.dispatcher.dispatch(m2) {
            Ok(outs) => {
                self.emitted = Ghost(self.emitted@.push(v2));
                self.state = if stop { ActorState::Stopped } else { ActorState::Running };
                proof {
                    assert(outs@.len() == outputs_view(outs@).len());
                    assert(old_self.state != ActorState::Stopped);
                    assert(stop_closes(old_self.emitted@, false));
                    assert(self.emitted@.drop_last() =~= old_self.emitted@);
                }
                Ok(outs)
            },
            Err(e) => Err(ActorError::Dispatch(e)),
        }
    }
}

/// Runs the operator chain on a merged message.
fn apply_project(project: &Option<Vec<usize>>, m: Message) -> (r: Result<Message, ActorError>)
    ensures
        ({
            let p = match project {
                Some(cols) => Some(cols@),
                None => None,
            };
            match apply_chain(p, m@) {
                Some(x) => r matches Ok(y) && y@ == x,
                None => r is Err && r->Err_0 is ProjectOutOfRange,
            }
        }),
{
    match project {
        None => Ok(m),
        Some(cols) => match m {
            Message::Barrier(b) => Ok(Message::Barrier(b)),
            Message::Chunk(chunk) => match project_chunk(&chunk, cols) {
                Ok(c) => Ok(Message::Chunk(c)),
                Err(e) => Err(e),
            },
        },
    }
}

/// Reduces each row of `chunk` to the columns `cols`.
fn project_chunk(chunk: &Chunk, cols: &Vec<usize>) -> (r: Result<Chunk, ActorError>)
    ensures
        r is Ok <==> project_ok(chunk@, cols@),
        r matches Ok(c) ==> c@ == project_rows(chunk@, cols@),
        r is Err ==> r->Err_0 is ProjectOutOfRange,
{
    let mut rows: Vec<Vec<i64>> = Vec::new();
    let mut i: usize = 0;
    while i < chunk.rows.len()
        invariant
            i <= chunk.rows.len(),
            chunk@.len() == chunk.rows@.len(),
            rows@.len() == i,
            forall|j: int, k: int| 0 <= j < i && 0 <= k < cols@.len() ==> #[trigger] cols@[k] < #[trigger] chunk@[j].len(),
            forall|j: int| 0 <= j < i ==> #[trigger] rows@[j]@ == cols@.map_values(|c: usize| chunk@[j][c as int]),
        decreases chunk.rows.len() - i,
    {
        let row = &chunk.rows[i];
        assert(chunk@[i as int] == row@);
        let mut out: Vec<i64> = Vec::new();
        let mut k: usize = 0;
        while k < cols.len()
            invariant
                i < chunk.rows.len(),
                chunk@.len() == chunk.rows@.len(),
                k <= cols.len(),
                chunk@[i as int] == row@,
                out@.len() == k,
                forall|q: int| 0 <= q < k ==> #[trigger] cols@[q] < row@.len(),
                forall|q: int| 0 <= q < k ==> #[trigger] out@[q] == row@[cols@[q] as int],
            decreases cols.len() - k,
        {
            let col = cols[k];
            if col >= row.len() {
                proof {
                    assert(cols@[k as int] >= chunk@[i as int].len());
                    assert(!project_ok(chunk@, cols@));
                }
                return Err(ActorError::ProjectOutOfRange { column: col });
            }
            out.push(row[col]);
            k = k + 1;
        }
        proof {
            assert(out@ =~= cols@.map_values(|c: usize| chunk@[i as int][c as int]));
            assert forall|q: int| 0 <= q < cols@.len() implies #[trigger] cols@[q] < chunk@[i as int].len() by {}
        }
        rows.push(out);
        i = i + 1;
    }
    proof {
        assert(rows_view(rows@) =~= project_rows(chunk@, cols@));
    }
    Ok(Chunk { rows })
}

/// An actor receives and forwards at most one stop barrier: it is the last
/// message that its merger releases to it and that it hands to its
/// dispatcher, and the actor has it exactly when it has stopped, after which
/// it takes nothing more.
pub proof fn lemma_single_terminal_stop(a: Actor)
    requires
        a.wf(),
    ensures
        forall|i: int| 0 <= i < a.emitted@.len() - 1 ==> !(#[trigger] a.emitted@[i]).is_stop(),
        a.state == ActorState::Stopped <==> (a.emitted@.len() > 0 && a.emitted@.last().is_stop()),
{
}

} // verus!
