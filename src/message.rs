use vstd::prelude::*;

verus! {

/// The control payload carried by a barrier.
#[derive(Debug, Clone)]
pub enum Mutation {
    Nothing,
    Stop,
    /// A membership change: the ids of the actors that make up the new downstream set.
    Update(Vec<u32>),
}

/// A control message that delimits checkpoints.
#[derive(Debug, Clone)]
pub struct Barrier {
    pub epoch: u64,
    pub mutation: Mutation,
}

/// A batch of rows; every row is a sequence of column values.
#[derive(Debug, Clone)]
pub struct Chunk {
    pub rows: Vec<Vec<i64>>,
}

/// What flows along a channel between two actors.
#[derive(Debug, Clone)]
pub enum Message {
    Chunk(Chunk),
    Barrier(Barrier),
}

/// A mutation as a mathematical value.
pub enum MutationView {
    Nothing,
    Stop,
    Update(Seq<u32>),
}

/// A barrier as a mathematical value.
pub struct BarrierView {
    pub epoch: u64,
    pub mutation: MutationView,
}

/// A message as a mathematical value: a chunk is its rows.
pub enum MessageView {
    Chunk(Seq<Seq<i64>>),
    Barrier(BarrierView),
}

impl View for Mutation {
    type V = MutationView;

    open spec fn view(&self) -> MutationView {
        match self {
            Mutation::Nothing => MutationView::Nothing,
            Mutation::Stop => MutationView::Stop,
            Mutation::Update(ids) => MutationView::Update(ids@),
        }
    }
}

impl View for Barrier {
    type V = BarrierView;

    open spec fn view(&self) -> BarrierView {
        BarrierView { epoch: self.epoch, mutation: self.mutation@ }
    }
}

/// The values of each row, in order.
pub open spec fn rows_view(rows: Seq<Vec<i64>>) -> Seq<Seq<i64>> {
    rows.map_values(|r: Vec<i64>| r@)
}

impl View for Chunk {
    type V = Seq<Seq<i64>>;

    open spec fn view(&self) -> Seq<Seq<i64>> {
        rows_view(self.rows@)
    }
}

impl View for Message {
    type V = MessageView;

    open spec fn view(&self) -> MessageView {
        match self {
            Message::Chunk(c) => MessageView::Chunk(c@),
            Message::Barrier(b) => MessageView::Barrier(b@),
        }
    }
}

impl BarrierView {
    pub open spec fn is_stop(self) -> bool {
        self.mutation is Stop
    }
}

impl MessageView {
    pub open spec fn is_stop(self) -> bool {
        self is Barrier && self->Barrier_0.is_stop()
    }
}

/// Copies a row value by value.
pub fn copy_row(row: &Vec<i64>) -> (r: Vec<i64>)
    ensures
        r@ == row@,
{
    let mut out: Vec<i64> = Vec::new();
    let mut i: usize = 0;
    while i < row.len()
        invariant
            i <= row.len(),
            out@ == row@.take(i as int),
        decreases row.len() - i,
    {
        out.push(row[i]);
        i = i + 1;
        proof {
            assert(row@.take(i as int) =~= row@.take(i - 1).push(row@[i - 1]));
        }
    }
    proof {
        assert(row@.take(row.len() as int) =~= row@);
    }
    out
}

impl Mutation {
    pub fn duplicate(&self) -> (r: Mutation)
        ensures
            r@ == self@,
    {
        match self {
            Mutation::Nothing => Mutation::Nothing,
            Mutation::Stop => Mutation::Stop,
            Mutation::Update(ids) => {
                let mut out: Vec<u32> = Vec::new();
                let mut i: usize = 0;
                while i < ids.len()
                    invariant
                        i <= ids.len(),
                        out@ == ids@.take(i as int),
                    decreases ids.len() - i,
                {
                    out.push(ids[i]);
                    i = i + 1;
                    proof {
                        assert(ids@.take(i as int) =~= ids@.take(i - 1).push(ids@[i - 1]));
                    }
                }
                proof {
                    assert(ids@.take(ids.len() as int) =~= ids@);
                }
                Mutation::Update(out)
            },
        }
    }

    pub fn is_stop(&self) -> (r: bool)
        ensures
            r == (self@ is Stop),
    {
        match self {
            Mutation::Stop => true,
            _ => false,
        }
    }
}

impl Default for Barrier {
    /// Epoch zero, no mutation.
    fn default() -> (r: Barrier)
        ensures
            r@ == (BarrierView { epoch: 0, mutation: MutationView::Nothing }),
    {
        Barrier { epoch: 0, mutation: Mutation::Nothing }
    }
}

impl Barrier {
    pub fn duplicate(&self) -> (r: Barrier)
        ensures
            r@ == self@,
    {
        Barrier { epoch: self.epoch, mutation: self.mutation.duplicate() }
    }

    pub fn is_stop(&self) -> (r: bool)
        ensures
            r == self@.is_stop(),
    {
        self.mutation.is_stop()
    }
}

impl Chunk {
    pub fn duplicate(&self) -> (r: Chunk)
        ensures
            r@ == self@,
    {
        let mut rows: Vec<Vec<i64>> = Vec::new();
        let mut i: usize = 0;
        while i < self.rows.len()
            invariant
                i <= self.rows.len(),
                rows@.len() == i,
                forall|j: int| 0 <= j < i ==> rows@[j]@ == self.rows@[j]@,
            decreases self.rows.len() - i,
        {
            let row = copy_row(&self.rows[i]);
            rows.push(row);
            i = i + 1;
        }
        proof {
            assert(rows_view(rows@) =~= self@);
        }
        Chunk { rows }
    }
}

impl Message {
    pub fn duplicate(&self) -> (r: Message)
        ensures
            r@ == self@,
    {
        match self {
            Message::Chunk(c) => Message::Chunk(c.duplicate()),
            Message::Barrier(b) => Message::Barrier(b.duplicate()),
        }
    }

    pub fn is_stop(&self) -> (r: bool)
        ensures
            r == self@.is_stop(),
    {
        match self {
            Message::Barrier(b) => b.is_stop(),
            Message::Chunk(_) => false,
        }
    }
}

} // verus!
