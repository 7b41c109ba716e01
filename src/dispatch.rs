use vstd::prelude::*;

use vstd::arithmetic::div_mod::lemma_fundamental_div_mod_converse;
use vstd::multiset::{lemma_multiset_empty_len, Multiset};
use vstd::seq_lib::group_to_multiset_ensures;

use crate::message::{Chunk, Message, MessageView};

verus! {

/// The destination, among `n`, of a row whose partition column holds
/// `value`: the value's remainder modulo `n`, which is never negative.
pub open spec fn partition_of(value: i64, n: nat) -> nat {
    ((value as int) % (n as int)) as nat
}

/// Computes the destination of a row whose partition column holds `value`.
pub fn partition(value: i64, n: usize) -> (r: usize)
    requires
        n > 0,
    ensures
        r == partition_of(value, n as nat),
        r < n,
{
    let n64: u64 = n as u64;
    if value >= 0 {
        let r: u64 = (value as u64) % n64;
        r as usize
    } else {
        let a: u64 = if value == i64::MIN { 9223372036854775808u64 } else { (-value) as u64 };
        let r: u64 = a % n64;
        proof {
            let q: int = (a / n64) as int;
            assert(a == q * n64 + r) by (nonlinear_arith)
                requires
                    q == (a / n64) as int,
                    r == a % n64,
                    n64 > 0,
            ;
            assert(value as int == -(a as int));
            if r == 0 {
                assert(value as int == (-q) * n64 + 0) by (nonlinear_arith)
                    requires
                        value as int == -(a as int),
                        a == q * n64 + r,
                        r == 0,
                ;
                lemma_fundamental_div_mod_converse(value as int, n as int, -q, 0);
            } else {
                assert(value as int == (-q - 1) * n64 + (n64 - r)) by (nonlinear_arith)
                    requires
                        value as int == -(a as int),
                        a == q * n64 + r,
                ;
                lemma_fundamental_div_mod_converse(value as int, n as int, -q - 1, n64 - r);
            }
        }
        if r == 0 {
            0
        } else {
            (n64 - r) as usize
        }
    }
}

} // verus!

verus! {

/// How a dispatcher routes chunks; barriers always go to every downstream.
#[derive(Debug, Clone, Copy, PartialEq, Eq, Structural)]
pub enum DispatcherType {
    /// Rows are split by a column's value.
    Hash,
    /// Every message goes to every downstream unchanged.
    Simple,
    /// Successive chunks go to successive downstreams.
    RoundRobin,
}

/// The description of a dispatcher in a fragment.
#[derive(Debug, Clone, Copy)]
pub struct DispatcherDesc {
    pub dispatcher_type: DispatcherType,
    /// The partition column of `Hash`.
    pub column_idx: usize,
}

/// Why a dispatcher cannot be made or cannot route a message.
#[derive(Debug, Clone, Copy, PartialEq, Eq, Structural)]
pub enum DispatchError {
    /// `Hash` and `RoundRobin` need at least one downstream.
    NoDownstream,
    /// A row of a chunk has no value at the partition column.
    ColumnOutOfRange { column_idx: usize },
}

/// Fans messages out to `outputs` downstream channels.
#[derive(Debug)]
pub struct Dispatcher {
    pub kind: DispatcherType,
    pub column_idx: usize,
    pub outputs: usize,
    /// The downstream that receives the next chunk under `RoundRobin`.
    pub next: usize,
}

/// The rows that `Hash` sends to destination `d`, in their order.
pub open spec fn rows_for(rows: Seq<Seq<i64>>, col: int, n: nat, d: nat) -> Seq<Seq<i64>>
    decreases rows.len(),
{
    if rows.len() == 0 {
        Seq::empty()
    } else {
        let prev = rows_for(rows.drop_last(), col, n, d);
        if partition_of(rows.last()[col], n) == d {
            prev.push(rows.last())
        } else {
            prev
        }
    }
}

/// Every row has a value at column `col`.
pub open spec fn has_column(rows: Seq<Seq<i64>>, col: int) -> bool {
    forall|i: int| 0 <= i < rows.len() ==> col < #[trigger] rows[i].len()
}

/// What `Hash` sends to each of `n` destinations: the non-empty sub-batches.
pub open spec fn hash_outputs(rows: Seq<Seq<i64>>, col: int, n: nat) -> Seq<Option<MessageView>> {
    Seq::new(
        n,
        |d: int|
            if rows_for(rows, col, n, d as nat).len() > 0 {
                Some(MessageView::Chunk(rows_for(rows, col, n, d as nat)))
            } else {
                None
            },
    )
}

/// The same message for each of `n` destinations.
pub open spec fn broadcast_outputs(m: MessageView, n: nat) -> Seq<Option<MessageView>> {
    Seq::new(n, |d: int| Some(m))
}

/// The message for destination `k` alone.
pub open spec fn single_output(m: MessageView, n: nat, k: nat) -> Seq<Option<MessageView>> {
    Seq::new(n, |d: int| if d == k { Some(m) } else { None })
}

/// What a dispatcher hands to each downstream for `m`; `None` where it must fail.
pub open spec fn dispatch_spec(
    kind: DispatcherType,
    col: nat,
    n: nat,
    next: nat,
    m: MessageView,
) -> Option<Seq<Option<MessageView>>> {
    match m {
        MessageView::Barrier(_) => Some(broadcast_outputs(m, n)),
        MessageView::Chunk(rows) => match kind {
            DispatcherType::Simple => Some(broadcast_outputs(m, n)),
            DispatcherType::RoundRobin => Some(single_output(m, n, next)),
            DispatcherType::Hash => if has_column(rows, col as int) {
                Some(hash_outputs(rows, col as int, n))
            } else {
                None
            },
        },
    }
}

/// What each downstream receives, as values.
pub open spec fn outputs_view(v: Seq<Option<Message>>) -> Seq<Option<MessageView>> {
    v.map_values(|o: Option<Message>| match o {
        Some(m) => Some(m@),
        None => None,
    })
}

/// The rows that a sequence of per-destination outputs carries, counted with multiplicity.
pub open spec fn delivered(outs: Seq<Option<MessageView>>) -> Multiset<Seq<i64>>
    decreases outs.len(),
{
    if outs.len() == 0 {
        Multiset::empty()
    } else {
        let last = match outs.last() {
            Some(MessageView::Chunk(rows)) => rows.to_multiset(),
            _ => Multiset::empty(),
        };
        delivered(outs.drop_last()).add(last)
    }
}

proof fn lemma_outputs_view_push(v: Seq<Option<Message>>, x: Option<Message>)
    ensures
        outputs_view(v.push(x)) == outputs_view(v).push(
            match x {
                Some(m) => Some(m@),
                None => None,
            },
        ),
{
    assert(outputs_view(v.push(x)) =~= outputs_view(v).push(
        match x {
            Some(m) => Some(m@),
            None => None,
        },
    ));
}

impl Dispatcher {
    pub open spec fn wf(self) -> bool {
        &&& (self.kind != DispatcherType::Simple ==> self.outputs > 0)
        &&& (self.outputs > 0 ==> self.next < self.outputs)
        &&& (self.outputs == 0 ==> self.next == 0)
    }

    /// A dispatcher of the described kind to `outputs` downstreams.
    pub fn new(desc: DispatcherDesc, outputs: usize) -> (r: Result<Dispatcher, DispatchError>)
        ensures
            r is Err <==> (desc.dispatcher_type != DispatcherType::Simple && outputs == 0),
            r is Err ==> r == Err::<Dispatcher, DispatchError>(DispatchError::NoDownstream),
            r matches Ok(d) ==> {
                &&& d.wf()
                &&& d.kind == desc.dispatcher_type
                &&& d.column_idx == desc.column_idx
                &&& d.outputs == outputs
                &&& d.next == 0
            },
    {
        if desc.dispatcher_type != DispatcherType::Simple && outputs == 0 {
            return Err(DispatchError::NoDownstream);
        }
        Ok(Dispatcher { kind: desc.dispatcher_type, column_idx: desc.column_idx, outputs, next: 0 })
    }

    /// Routes `msg`: element `d` of the result is what goes to downstream `d`.
    pub fn dispatch(&mut self, msg: Message) -> (r: Result<Vec<Option<Message>>, DispatchError>)
        requires
            old(self).wf(),
        ensures
            final(self).wf(),
            final(self).kind == old(self).kind,
            final(self).column_idx == old(self).column_idx,
            final(self).outputs == old(self).outputs,
            ({
                let spec = dispatch_spec(
                    old(self).kind,
                    old(self).column_idx as nat,
                    old(self).outputs as nat,
                    old(self).next as nat,
                    msg@,
                );
                &&& r is Ok <==> spec is Some
                &&& r matches Ok(v) ==> outputs_view(v@) == spec->Some_0
                &&& r is Err ==> r == Err::<Vec<Option<Message>>, DispatchError>(
                    DispatchError::ColumnOutOfRange { column_idx: old(self).column_idx },
                )
            }),
            final(self).next == (if msg@ is Chunk && old(self).kind == DispatcherType::RoundRobin {
                (old(self).next + 1) % (old(self).outputs as int)
            } else {
                old(self).next as int
            }),
    {
        match msg {
            Message::Barrier(_) => Ok(broadcast(&msg, self.outputs)),
            Message::Chunk(chunk) => {
                match self.kind {
                    DispatcherType::Simple => {
                        let m = Message::Chunk(chunk);
                        Ok(broadcast(&m, self.outputs))
                    },
                    DispatcherType::RoundRobin => {
                        let k = self.next;
                        let mut out: Vec<Option<Message>> = Vec::new();
                        let mut d: usize = 0;
                        let ghost m = MessageView::Chunk(chunk@);
                        let mut slot: Option<Message> = Some(Message::Chunk(chunk));
                        while d < self.outputs
                            invariant
                                d <= self.outputs,
                                k < self.outputs,
                                out@.len() == d,
                                d <= k ==> (slot matches Some(x) && x@ == m),
                                forall|j: int| 0 <= j < d ==> outputs_view(out@)[j] == single_output(m, self.outputs as nat, k as nat)[j],
                            decreases self.outputs - d,
                        {
                            let ghost prev = out@;
                            if d == k {
                                let taken = slot;
                                slot = None;
                                out.push(taken);
                            } else {
                                out.push(None);
                            }
                            proof {
                                lemma_outputs_view_push(prev, out@.last());
                                assert(out@ == prev.push(out@.last()));
                            }
                            d = d + 1;
                        }
                        proof {
                            assert(outputs_view(out@) =~= single_output(m, self.outputs as nat, k as nat));
                        }
                        self.next = if k + 1 == self.outputs { 0 } else { k + 1 };
                        proof {
                            assert(self.next == (k + 1) % (self.outputs as int)) by (nonlinear_arith)
                                requires
                                    k < self.outputs,
                                    self.next == (if k + 1 == self.outputs { 0 } else { k + 1 }),
                            ;
                        }
                        Ok(out)
                    },
                    DispatcherType::Hash => {
                        let col = self.column_idx;
                        let mut i: usize = 0;
                        while i < chunk.rows.len()
                            invariant
                                *self == *old(self),
                                self.wf(),
                                self.kind == DispatcherType::Hash,
                                col == self.column_idx,
                                msg@ == MessageView::Chunk(chunk@),
                                i <= chunk.rows.len(),
                                forall|j: int| 0 <= j < i ==> col < #[trigger] chunk@[j].len(),
                            decreases chunk.rows.len() - i,
                        {
                            if chunk.rows[i].len() <= col {
                                assert(chunk@[i as int] == chunk.rows@[i as int]@);
                                assert(!has_column(chunk@, col as int));
                                return Err(DispatchError::ColumnOutOfRange { column_idx: col });
                            }
                            i = i + 1;
                        }
                        Ok(hash_split(&chunk, col, self.outputs))
                    },
                }
            },
        }
    }
}

/// The same message for each of `n` downstreams.
fn broadcast(msg: &Message, n: usize) -> (r: Vec<Option<Message>>)
    ensures
        outputs_view(r@) == broadcast_outputs(msg@, n as nat),
{
    let mut out: Vec<Option<Message>> = Vec::new();
    let mut d: usize = 0;
    while d < n
        invariant
            d <= n,
            out@.len() == d,
            forall|j: int| 0 <= j < d ==> outputs_view(out@)[j] == Some(msg@),
        decreases n - d,
    {
        let ghost prev = out@;
        out.push(Some(msg.duplicate()));
        proof {
            lemma_outputs_view_push(prev, out@.last());
            assert(out@ == prev.push(out@.last()));
        }
        d = d + 1;
    }
    proof {
        assert(outputs_view(out@) =~= broadcast_outputs(msg@, n as nat));
    }
    out
}

/// The rows of `chunk` that go to destination `d` of `n`.
fn rows_to(chunk: &Chunk, col: usize, n: usize, d: usize) -> (r: Vec<Vec<i64>>)
    requires
        n > 0,
        has_column(chunk@, col as int),
    ensures
        crate::message::rows_view(r@) == rows_for(chunk@, col as int, n as nat, d as nat),
{
    let mut out: Vec<Vec<i64>> = Vec::new();
    let mut i: usize = 0;
    while i < chunk.rows.len()
        invariant
            n > 0,
            i <= chunk.rows.len(),
            has_column(chunk@, col as int),
            crate::message::rows_view(out@) == rows_for(chunk@.take(i as int), col as int, n as nat, d as nat),
        decreases chunk.rows.len() - i,
    {
        let row = &chunk.rows[i];
        assert(chunk@[i as int] == row@);
        assert(col < chunk@[i as int].len());
        let p = partition(row[col], n);
        proof {
            assert(chunk@.take(i + 1).drop_last() =~= chunk@.take(i as int));
            assert(chunk@.take(i + 1).last() == row@);
        }
        if p == d {
            let copy = crate::message::copy_row(row);
            out.push(copy);
            proof {
                assert(crate::message::rows_view(out@) =~= rows_for(chunk@.take(i as int), col as int, n as nat, d as nat).push(row@));
            }
        }
        i = i + 1;
    }
    proof {
        assert(chunk@.take(chunk.rows.len() as int) =~= chunk@);
    }
    out
}

/// The non-empty sub-batch of `chunk` for each of `n` destinations.
fn hash_split(chunk: &Chunk, col: usize, n: usize) -> (r: Vec<Option<Message>>)
    requires
        n > 0,
        has_column(chunk@, col as int),
    ensures
        outputs_view(r@) == hash_outputs(chunk@, col as int, n as nat),
{
    let mut out: Vec<Option<Message>> = Vec::new();
    let mut d: usize = 0;
    while d < n
        invariant
            n > 0,
            d <= n,
            has_column(chunk@, col as int),
            out@.len() == d,
            forall|j: int| 0 <= j < d ==> outputs_view(out@)[j] == hash_outputs(chunk@, col as int, n as nat)[j],
        decreases n - d,
    {
        let rows = rows_to(chunk, col, n, d);
        let ghost prev = out@;
        if rows.len() > 0 {
            out.push(Some(Message::Chunk(Chunk { rows })));
        } else {
            out.push(None);
        }
        proof {
            lemma_outputs_view_push(prev, out@.last());
            assert(out@ == prev.push(out@.last()));
        }
        d = d + 1;
    }
    proof {
        assert(outputs_view(out@) =~= hash_outputs(chunk@, col as int, n as nat));
    }
    out
}


/// The rows that `Hash` sends to the destinations below `k`, counted with multiplicity.
pub open spec fn hashed_parts(rows: Seq<Seq<i64>>, col: int, n: nat, k: nat) -> Multiset<Seq<i64>>
    decreases k,
{
    if k == 0 {
        Multiset::empty()
    } else {
        hashed_parts(rows, col, n, (k - 1) as nat).add(
            rows_for(rows, col, n, (k - 1) as nat).to_multiset(),
        )
    }
}

proof fn lemma_empty_to_multiset(s: Seq<Seq<i64>>)
    requires
        s.len() == 0,
    ensures
        s.to_multiset() == Multiset::<Seq<i64>>::empty(),
{
    broadcast use group_to_multiset_ensures;

    lemma_multiset_empty_len(s.to_multiset());
}

proof fn lemma_hashed_parts_empty(col: int, n: nat, k: nat)
    ensures
        hashed_parts(Seq::empty(), col, n, k) == Multiset::<Seq<i64>>::empty(),
    decreases k,
{
    if k > 0 {
        lemma_hashed_parts_empty(col, n, (k - 1) as nat);
        lemma_empty_to_multiset(rows_for(Seq::empty(), col, n, (k - 1) as nat));
        assert(hashed_parts(Seq::empty(), col, n, k) =~= Multiset::empty());
    }
}

proof fn lemma_hashed_parts_push(rows: Seq<Seq<i64>>, r: Seq<i64>, col: int, n: nat, k: nat)
    ensures
        hashed_parts(rows.push(r), col, n, k) == hashed_parts(rows, col, n, k).add(
            if partition_of(r[col], n) < k {
                Multiset::singleton(r)
            } else {
                Multiset::empty()
            },
        ),
    decreases k,
{
    broadcast use group_to_multiset_ensures;

    if k == 0 {
        assert(hashed_parts(rows.push(r), col, n, k) =~= hashed_parts(rows, col, n, k).add(
            Multiset::empty(),
        ));
    } else {
        let d = (k - 1) as nat;
        lemma_hashed_parts_push(rows, r, col, n, d);
        assert(rows.push(r).drop_last() =~= rows);
        assert(rows.push(r).last() == r);
        if partition_of(r[col], n) == d {
            assert(rows_for(rows.push(r), col, n, d) == rows_for(rows, col, n, d).push(r));
            assert(hashed_parts(rows.push(r), col, n, k) =~= hashed_parts(rows, col, n, k).add(
                Multiset::singleton(r),
            ));
        } else {
            assert(rows_for(rows.push(r), col, n, d) == rows_for(rows, col, n, d));
            if partition_of(r[col], n) < k {
                assert(hashed_parts(rows.push(r), col, n, k) =~= hashed_parts(rows, col, n, k).add(
                    Multiset::singleton(r),
                ));
            } else {
                assert(hashed_parts(rows.push(r), col, n, k) =~= hashed_parts(rows, col, n, k).add(
                    Multiset::empty(),
                ));
            }
        }
    }
}

proof fn lemma_hashed_parts_all(rows: Seq<Seq<i64>>, col: int, n: nat)
    requires
        n > 0,
    ensures
        hashed_parts(rows, col, n, n) == rows.to_multiset(),
    decreases rows.len(),
{
    broadcast use group_to_multiset_ensures;

    if rows.len() == 0 {
        lemma_hashed_parts_empty(col, n, n);
        assert(rows =~= Seq::empty());
        lemma_empty_to_multiset(rows);
    } else {
        let prev = rows.drop_last();
        let r = rows.last();
        lemma_hashed_parts_all(prev, col, n);
        lemma_hashed_parts_push(prev, r, col, n, n);
        assert(prev.push(r) =~= rows);
        assert(partition_of(r[col], n) < n);
        assert(hashed_parts(rows, col, n, n) =~= prev.to_multiset().insert(r));
    }
}

proof fn lemma_delivered_hash_prefix(rows: Seq<Seq<i64>>, col: int, n: nat, k: nat)
    requires
        k <= n,
    ensures
        delivered(hash_outputs(rows, col, n).take(k as int)) == hashed_parts(rows, col, n, k),
    decreases k,
{
    let outs = hash_outputs(rows, col, n);
    if k == 0 {
        assert(outs.take(0).len() == 0);
    } else {
        let d = (k - 1) as nat;
        lemma_delivered_hash_prefix(rows, col, n, d);
        assert(outs.take(k as int).drop_last() =~= outs.take(d as int));
        let part = rows_for(rows, col, n, d);
        if part.len() == 0 {
            lemma_empty_to_multiset(part);
            assert(delivered(outs.take(k as int)) =~= hashed_parts(rows, col, n, k));
        } else {
            assert(delivered(outs.take(k as int)) =~= hashed_parts(rows, col, n, k));
        }
    }
}

/// Hash dispatch loses and duplicates no row: together, the sub-batches
/// sent to the destinations hold exactly the rows of the chunk.
pub proof fn lemma_hash_dispatch_delivers_each_row_once(rows: Seq<Seq<i64>>, col: int, n: nat)
    requires
        n > 0,
    ensures
        delivered(hash_outputs(rows, col, n)) == rows.to_multiset(),
{
    lemma_delivered_hash_prefix(rows, col, n, n);
    assert(hash_outputs(rows, col, n).take(n as int) =~= hash_outputs(rows, col, n));
    lemma_hashed_parts_all(rows, col, n);
}


proof fn lemma_delivered_single_prefix(rows: Seq<Seq<i64>>, n: nat, k: nat, j: nat)
    requires
        j <= n,
    ensures
        delivered(single_output(MessageView::Chunk(rows), n, k).take(j as int)) == (if k < j {
            rows.to_multiset()
        } else {
            Multiset::empty()
        }),
    decreases j,
{
    let outs = single_output(MessageView::Chunk(rows), n, k);
    if j == 0 {
        assert(outs.take(0).len() == 0);
    } else {
        lemma_delivered_single_prefix(rows, n, k, (j - 1) as nat);
        assert(outs.take(j as int).drop_last() =~= outs.take(j - 1));
        if k == j - 1 {
            assert(delivered(outs.take(j as int)) =~= rows.to_multiset());
        } else if k < j - 1 {
            assert(delivered(outs.take(j as int)) =~= rows.to_multiset());
        } else {
            assert(delivered(outs.take(j as int)) =~= Multiset::empty());
        }
    }
}

/// Every row of a chunk reaches exactly one destination under `Hash` and
/// `RoundRobin` (none is lost, none is duplicated), and under `Simple` every
/// destination receives the message unchanged.
pub proof fn lemma_dispatch_delivers_each_row_once(
    kind: DispatcherType,
    col: nat,
    n: nat,
    next: nat,
    rows: Seq<Seq<i64>>,
)
    requires
        kind != DispatcherType::Simple ==> next < n,
        dispatch_spec(kind, col, n, next, MessageView::Chunk(rows)) is Some,
    ensures
        ({
            let outs = dispatch_spec(kind, col, n, next, MessageView::Chunk(rows))->Some_0;
            &&& kind != DispatcherType::Simple ==> delivered(outs) == rows.to_multiset()
            &&& kind == DispatcherType::Simple ==> forall|d: int|
                0 <= d < n ==> #[trigger] outs[d] == Some(MessageView::Chunk(rows))
            &&& outs.len() == n
        }),
{
    match kind {
        DispatcherType::Hash => {
            lemma_hash_dispatch_delivers_each_row_once(rows, col as int, n);
        },
        DispatcherType::RoundRobin => {
            lemma_delivered_single_prefix(rows, n, next, n);
            assert(single_output(MessageView::Chunk(rows), n, next).take(n as int) =~= single_output(
                MessageView::Chunk(rows),
                n,
                next,
            ));
        },
        DispatcherType::Simple => {},
    }
}

/// A chunk sent through a `Simple` dispatcher to a single downstream arrives
/// there unchanged, row for row and value for value.
pub proof fn lemma_simple_dispatch_passes_chunk_unchanged(col: nat, next: nat, rows: Seq<Seq<i64>>)
    ensures
        dispatch_spec(DispatcherType::Simple, col, 1, next, MessageView::Chunk(rows)) == Some(
            seq![Some(MessageView::Chunk(rows))],
        ),
{
    assert(broadcast_outputs(MessageView::Chunk(rows), 1) =~= seq![Some(MessageView::Chunk(rows))]);
}

} // verus!
