use vstd::prelude::*;

use crate::actor::{input_step, Actor, ActorError, ActorState};
use crate::dispatch::{Dispatcher, DispatcherDesc, DispatcherType};
use crate::message::Message;
use crate::registry::{find_duplicate_actor, is_registered, lookup, registered, unique_ids, ActorInfo};

verus! {

/// The upstream id that stands for the graph's external source.
pub const SOURCE_FRAGMENT_ID: u32 = 0;

/// The description of a fragment: a merge point over its upstream fragments,
/// an operator chain, an optional dispatcher and its downstream fragments.
#[derive(Debug, Clone)]
pub struct StreamFragment {
    pub fragment_id: u32,
    pub upstream_fragment_id: Vec<u32>,
    /// The columns that the projection keeps; `None` passes rows through.
    pub project: Option<Vec<usize>>,
    /// `None` forwards every message to every downstream.
    pub dispatcher: Option<DispatcherDesc>,
    pub downstream_fragment_id: Vec<u32>,
}

/// Why an update or a build is refused; nothing changes when it is.
#[derive(Debug, Clone, Copy, PartialEq, Eq, Structural)]
pub enum BuildError {
    /// Two actor entries of one update name the same fragment.
    DuplicateActor(u32),
    /// A fragment id is described twice.
    DuplicateFragment(u32),
    /// A fragment to build has no description.
    UnknownFragment(u32),
    /// A fragment to build already has an actor.
    AlreadyBuilt(u32),
    /// A fragment refers to an id that the registry cannot resolve.
    UnresolvedActor(u32),
    /// A `Hash` or `RoundRobin` fragment without downstream.
    NoDownstream(u32),
}

/// What goes wrong while messages move through a built graph.
#[derive(Debug, Clone, Copy, PartialEq, Eq, Structural)]
pub enum RuntimeError {
    NoChannel { up: u32, down: u32 },
    ActorFailed { fragment_id: u32, error: ActorError },
}

/// An ordered queue from one fragment to another.
#[derive(Debug)]
pub struct Channel {
    pub up: u32,
    pub down: u32,
    pub queue: Vec<Message>,
}

/// Fragment descriptions, the actor registry, and the actors built from them
/// with the channels that connect them.
pub struct StreamManager {
    pub actor_infos: Vec<ActorInfo>,
    pub fragments: Vec<StreamFragment>,
    pub actors: Vec<Actor>,
    /// For each actor, the channel of each of its merger's inputs.
    pub inputs: Vec<Vec<usize>>,
    /// For each actor, the channel of each of its dispatcher's outputs.
    pub outputs: Vec<Vec<usize>>,
    /// Which actors have failed; they are not scheduled again.
    pub failed: Vec<bool>,
    pub channels: Vec<Channel>,
}

/// `id` is the external source or has a registry entry.
pub open spec fn resolvable(infos: Seq<ActorInfo>, id: u32) -> bool {
    id == SOURCE_FRAGMENT_ID || registered(infos, id)
}

/// `Hash` and `RoundRobin` fragments have at least one downstream.
pub open spec fn dispatcher_ok(f: StreamFragment) -> bool {
    match f.dispatcher {
        Some(d) => d.dispatcher_type == DispatcherType::Simple || f.downstream_fragment_id@.len() > 0,
        None => true,
    }
}

/// Every id that `f` refers to resolves, and its dispatcher has the downstreams it needs.
pub open spec fn fragment_valid(infos: Seq<ActorInfo>, f: StreamFragment) -> bool {
    &&& forall|k: int| 0 <= k < f.upstream_fragment_id@.len() ==> resolvable(infos, #[trigger] f.upstream_fragment_id@[k])
    &&& forall|k: int| 0 <= k < f.downstream_fragment_id@.len() ==> registered(infos, #[trigger] f.downstream_fragment_id@[k])
    &&& dispatcher_ok(f)
}

/// The dispatcher a description asks for: `Simple` over column 0 when it names none.
pub open spec fn desc_of(f: StreamFragment) -> DispatcherDesc {
    match f.dispatcher {
        Some(d) => d,
        None => DispatcherDesc { dispatcher_type: DispatcherType::Simple, column_idx: 0 },
    }
}

/// The projection a description asks for.
pub open spec fn project_of(f: StreamFragment) -> Option<Seq<usize>> {
    match f.project {
        Some(cols) => Some(cols@),
        None => None,
    }
}

/// `f` refers to `x`, which does not resolve.
pub open spec fn refers_unresolved(infos: Seq<ActorInfo>, f: StreamFragment, x: u32) -> bool {
    ||| (exists|k: int|
        0 <= k < f.upstream_fragment_id@.len() && #[trigger] f.upstream_fragment_id@[k] == x && !resolvable(infos, x))
    ||| (exists|k: int|
        0 <= k < f.downstream_fragment_id@.len() && #[trigger] f.downstream_fragment_id@[k] == x && !registered(
            infos,
            x,
        ))
}

/// The description of fragment `id` among `frags`, whose ids are distinct.
pub open spec fn description(frags: Seq<StreamFragment>, id: u32) -> StreamFragment {
    frags[choose|i: int| 0 <= i < frags.len() && frags[i].fragment_id == id]
}

pub open spec fn described(frags: Seq<StreamFragment>, id: u32) -> bool {
    exists|i: int| 0 <= i < frags.len() && (#[trigger] frags[i]).fragment_id == id
}

pub open spec fn unique_fragments(frags: Seq<StreamFragment>) -> bool {
    forall|i: int, j: int|
        0 <= i < j < frags.len() ==> (#[trigger] frags[i]).fragment_id != (#[trigger] frags[j]).fragment_id
}

pub open spec fn built(actors: Seq<Actor>, id: u32) -> bool {
    exists|i: int| 0 <= i < actors.len() && (#[trigger] actors[i]).fragment_id == id
}

impl StreamManager {
    pub open spec fn wf(self) -> bool {
        &&& self.inputs@.len() == self.actors@.len()
        &&& self.outputs@.len() == self.actors@.len()
        &&& self.failed@.len() == self.actors@.len()
        &&& unique_ids(self.actor_infos@)
        &&& unique_fragments(self.fragments@)
        &&& forall|i: int| 0 <= i < self.actors@.len() ==> {
            &&& (#[trigger] self.actors@[i]).wf()
            &&& self.inputs@[i]@.len() == self.actors@[i].merger.num_inputs()
            &&& self.outputs@[i]@.len() == self.actors@[i].dispatcher.outputs
            &&& forall|k: int| 0 <= k < self.inputs@[i]@.len() ==> #[trigger] self.inputs@[i]@[k] < self.channels@.len()
            &&& forall|k: int| 0 <= k < self.outputs@[i]@.len() ==> #[trigger] self.outputs@[i]@[k] < self.channels@.len()
        }
    }

    /// A batch can be built: its ids are distinct, and each names a described,
    /// valid fragment that has no actor yet.
    pub open spec fn batch_valid(self, ids: Seq<u32>) -> bool {
        &&& ids.no_duplicates()
        &&& forall|k: int| 0 <= k < ids.len() ==> {
            &&& !built(self.actors@, #[trigger] ids[k])
            &&& exists|i: int|
                0 <= i < self.fragments@.len() && (#[trigger] self.fragments@[i]).fragment_id == ids[k]
                    && fragment_valid(self.actor_infos@, self.fragments@[i])
        }
    }

    /// What makes building `ids` fail with `e`.
    pub open spec fn build_error_cause(self, ids: Seq<u32>, e: BuildError) -> bool {
        match e {
            BuildError::DuplicateFragment(x) => exists|a: int, b: int|
                0 <= a < b < ids.len() && #[trigger] ids[a] == x && #[trigger] ids[b] == x,
            BuildError::AlreadyBuilt(x) => ids.contains(x) && built(self.actors@, x),
            BuildError::UnknownFragment(x) => ids.contains(x) && !described(self.fragments@, x),
            BuildError::UnresolvedActor(x) => exists|i: int|
                0 <= i < self.fragments@.len() && ids.contains((#[trigger] self.fragments@[i]).fragment_id)
                    && refers_unresolved(self.actor_infos@, self.fragments@[i], x),
            BuildError::NoDownstream(x) => ids.contains(x) && exists|i: int|
                0 <= i < self.fragments@.len() && (#[trigger] self.fragments@[i]).fragment_id == x
                    && !dispatcher_ok(self.fragments@[i]),
            BuildError::DuplicateActor(_) => false,
        }
    }

    /// Actor `a` is a fresh actor of description `f`, wired to the channels
    /// it names: input `u` reads the channel from `f`'s `u`-th upstream, and
    /// output `d` writes the channel to its `d`-th downstream.
    pub open spec fn built_from(self, a: int, f: StreamFragment) -> bool {
        let actor = self.actors@[a];
        &&& actor.fragment_id == f.fragment_id
        &&& actor.merger.num_inputs() == f.upstream_fragment_id@.len()
        &&& actor.dispatcher.kind == desc_of(f).dispatcher_type
        &&& actor.dispatcher.column_idx == desc_of(f).column_idx
        &&& actor.dispatcher.outputs == f.downstream_fragment_id@.len()
        &&& actor.project_view() == project_of(f)
        &&& self.inputs@[a]@.len() == f.upstream_fragment_id@.len()
        &&& self.outputs@[a]@.len() == f.downstream_fragment_id@.len()
        &&& forall|u: int| 0 <= u < f.upstream_fragment_id@.len() ==> {
            &&& self.channels@[#[trigger] self.inputs@[a]@[u] as int].up == f.upstream_fragment_id@[u]
            &&& self.channels@[self.inputs@[a]@[u] as int].down == f.fragment_id
        }
        &&& forall|d: int| 0 <= d < f.downstream_fragment_id@.len() ==> {
            &&& self.channels@[#[trigger] self.outputs@[a]@[d] as int].up == f.fragment_id
            &&& self.channels@[self.outputs@[a]@[d] as int].down == f.downstream_fragment_id@[d]
        }
    }

    /// Some live actor can take a message from one of its channels.
    pub open spec fn has_work(self) -> bool {
        exists|i: int, k: int|
            0 <= i < self.actors@.len() && 0 <= k < self.inputs@[i]@.len() && #[trigger] self.ready(i, k)
    }

    pub open spec fn ready(self, i: int, k: int) -> bool {
        &&& !self.failed@[i]
        &&& self.actors@[i].state != ActorState::Stopped
        &&& !self.actors@[i].merger.terminated
        &&& !self.actors@[i].merger.arrived@[k]
        &&& self.channels@[self.inputs@[i]@[k] as int].queue@.len() > 0
    }

    /// An empty manager: no registry entry, no fragment, no actor.
    pub fn new() -> (r: StreamManager)
        ensures
            r.wf(),
            r.actor_infos@.len() == 0,
            r.fragments@.len() == 0,
            r.actors@.len() == 0,
            r.channels@.len() == 0,
    {
        StreamManager {
            actor_infos: Vec::new(),
            fragments: Vec::new(),
            actors: Vec::new(),
            inputs: Vec::new(),
            outputs: Vec::new(),
            failed: Vec::new(),
            channels: Vec::new(),
        }
    }

    /// Replaces the registry with `info` as a whole; an update that names a
    /// fragment twice is refused and changes nothing.
    pub fn update_actor_info(&mut self, info: Vec<ActorInfo>) -> (r: Result<(), BuildError>)
        requires
            old(self).wf(),
        ensures
            final(self).wf(),
            r is Ok <==> unique_ids(info@),
            r is Ok ==> final(self).actor_infos@ == info@,
            r matches Err(e) ==> *final(self) == *old(self) && (e matches BuildError::DuplicateActor(id)
                && exists|i: int, j: int|
                0 <= i < j < info@.len() && (#[trigger] info@[i]).fragment_id == id && (#[trigger] info@[j]).fragment_id == id),
            final(self).fragments == old(self).fragments,
            final(self).actors == old(self).actors,
            final(self).inputs == old(self).inputs,
            final(self).outputs == old(self).outputs,
            final(self).channels == old(self).channels,
    {
        match find_duplicate_actor(&info) {
            Some(id) => Err(BuildError::DuplicateActor(id)),
            None => {
                self.actor_infos = info;
                Ok(())
            },
        }
    }

    /// Where the actor of fragment `id` runs, by the registry.
    pub fn actor_info(&self, id: u32) -> (r: Option<&ActorInfo>)
        ensures
            r is None <==> !registered(self.actor_infos@, id),
            r matches Some(a) ==> a.fragment_id == id && exists|i: int|
                0 <= i < self.actor_infos@.len() && #[trigger] self.actor_infos@[i] == *a,
    {
        lookup(&self.actor_infos, id)
    }

    /// Adds fragment descriptions; a batch that describes an id twice, or one
    /// already described, is refused and changes nothing.
    pub fn update_fragment(&mut self, fragments: Vec<StreamFragment>) -> (r: Result<(), BuildError>)
        requires
            old(self).wf(),
        ensures
            final(self).wf(),
            r is Ok <==> unique_fragments(old(self).fragments@ + fragments@),
            r is Ok ==> final(self).fragments@ == old(self).fragments@ + fragments@,
            r matches Err(e) ==> *final(self) == *old(self) && (e matches BuildError::DuplicateFragment(id)
                && (exists|i: int, j: int|
                0 <= i < j < (old(self).fragments@ + fragments@).len()
                    && (#[trigger] (old(self).fragments@ + fragments@)[i]).fragment_id == id
                    && (#[trigger] (old(self).fragments@ + fragments@)[j]).fragment_id == id)),
            final(self).actor_infos == old(self).actor_infos,
            final(self).actors == old(self).actors,
            final(self).inputs == old(self).inputs,
            final(self).outputs == old(self).outputs,
            final(self).channels == old(self).channels,
    {
        let ghost all = self.fragments@ + fragments@;
        let ghost n_old = self.fragments@.len();
        let mut j: usize = 0;
        while j < fragments.len()
            invariant
                *self == *old(self),
                self.wf(),
                n_old == self.fragments@.len(),
                all == self.fragments@ + fragments@,
                j <= fragments.len(),
                forall|a: int, b: int|
                    0 <= a < b < n_old + j ==> (#[trigger] all[a]).fragment_id != (#[trigger] all[b]).fragment_id,
            decreases fragments.len() - j,
        {
            let idj = fragments[j].fragment_id;
            assert(idj == all[n_old + j].fragment_id);
            let mut i: usize = 0;
            while i < self.fragments.len()
                invariant
                    *self == *old(self),
                    self.wf(),
                    n_old == self.fragments@.len(),
                    all == self.fragments@ + fragments@,
                    j < fragments.len(),
                    i <= self.fragments.len(),
                    idj == all[n_old + j].fragment_id,
                    forall|a: int| 0 <= a < i ==> (#[trigger] all[a]).fragment_id != idj,
                decreases self.fragments.len() - i,
            {
                assert(self.fragments@[i as int] == all[i as int]);
                if self.fragments[i].fragment_id == idj {
                    return Err(BuildError::DuplicateFragment(idj));
                }
                i = i + 1;
            }
            let mut i: usize = 0;
            while i < j
                invariant
                    *self == *old(self),
                    self.wf(),
                    n_old == self.fragments@.len(),
                    all == self.fragments@ + fragments@,
                    i <= j < fragments.len(),
                    idj == all[n_old + j].fragment_id,
                    forall|a: int| 0 <= a < n_old + i ==> (#[trigger] all[a]).fragment_id != idj,
                decreases j - i,
            {
                assert(fragments@[i as int] == all[n_old + i]);
                if fragments[i].fragment_id == idj {
                    return Err(BuildError::DuplicateFragment(idj));
                }
                i = i + 1;
            }
            j = j + 1;
        }
        let mut fragments = fragments;
        self.fragments.append(&mut fragments);
        Ok(())
    }

    /// Checks a batch before anything is built; on success, the index of
    /// the description of each fragment of the batch.
    fn check_batch(&self, ids: &[u32]) -> (r: Result<Vec<usize>, BuildError>)
        requires
            self.wf(),
        ensures
            r is Ok <==> self.batch_valid(ids@),
            r matches Err(e) ==> self.build_error_cause(ids@, e),
            r matches Ok(v) ==> {
                &&& v@.len() == ids@.len()
                &&& forall|k: int| 0 <= k < ids@.len() ==> {
                    &&& #[trigger] v@[k] < self.fragments@.len()
                    &&& self.fragments@[v@[k] as int].fragment_id == ids@[k]
                    &&& fragment_valid(self.actor_infos@, self.fragments@[v@[k] as int])
                }
            },
    {
        let mut v: Vec<usize> = Vec::new();
        let mut k: usize = 0;
        while k < ids.len()
            invariant
                self.wf(),
                k <= ids.len(),
                v@.len() == k,
                forall|a: int, b: int| 0 <= a < k && 0 <= b < k && a != b ==> ids@[a] != ids@[b],
                forall|q: int| 0 <= q < k ==> {
                    &&& !built(self.actors@, #[trigger] ids@[q])
                    &&& v@[q] < self.fragments@.len()
                    &&& self.fragments@[v@[q] as int].fragment_id == ids@[q]
                    &&& fragment_valid(self.actor_infos@, self.fragments@[v@[q] as int])
                },
            decreases ids.len() - k,
        {
            let id = ids[k];
            let mut i: usize = 0;
            while i < k
                invariant
                    i <= k < ids.len(),
                    id == ids@[k as int],
                    forall|a: int| 0 <= a < i ==> ids@[a] != id,
                decreases k - i,
            {
                if ids[i] == id {
                    proof {
                        assert(!ids@.no_duplicates()) by {
                            assert(ids@[i as int] == ids@[k as int]);
                        }
                        assert(ids@[i as int] == id && ids@[k as int] == id);
                    }
                    return Err(BuildError::DuplicateFragment(id));
                }
                i = i + 1;
            }
            if is_built(&self.actors, id) {
                assert(ids@.contains(id)) by {
                    assert(ids@[k as int] == id);
                }
                return Err(BuildError::AlreadyBuilt(id));
            }
            let fi = match find_fragment(&self.fragments, id) {
                Some(fi) => fi,
                None => {
                    assert(ids@.contains(id)) by {
                        assert(ids@[k as int] == id);
                    }
                    return Err(BuildError::UnknownFragment(id));
                },
            };
            match check_fragment(&self.actor_infos, &self.fragments[fi]) {
                Ok(()) => {},
                Err(e) => {
                    proof {
                        assert(ids@.contains(id)) by {
                            assert(ids@[k as int] == id);
                        }
                        assert(self.fragments@[fi as int].fragment_id == id);
                        assert forall|j: int|
                            0 <= j < self.fragments@.len() && (#[trigger] self.fragments@[j]).fragment_id == id implies
                            !fragment_valid(self.actor_infos@, self.fragments@[j]) by {
                            if j != fi {
                                if j < fi {
                                    assert(self.fragments@[j].fragment_id != self.fragments@[fi as int].fragment_id);
                                } else {
                                    assert(self.fragments@[fi as int].fragment_id != self.fragments@[j].fragment_id);
                                }
                            }
                        }
                    }
                    return Err(e);
                },
            }
            v.push(fi);
            k = k + 1;
        }
        proof {
            assert forall|k: int| 0 <= k < ids@.len() implies {
                &&& !built(self.actors@, #[trigger] ids@[k])
                &&& exists|i: int|
                    0 <= i < self.fragments@.len() && (#[trigger] self.fragments@[i]).fragment_id == ids@[k]
                        && fragment_valid(self.actor_infos@, self.fragments@[i])
            } by {
                assert(!built(self.actors@, ids@[k]));
                let i = v@[k] as int;
                assert(0 <= i < self.fragments@.len());
                assert(self.fragments@[i].fragment_id == ids@[k]);
            }
            assert forall|k: int| 0 <= k < ids@.len() implies {
                &&& #[trigger] v@[k] < self.fragments@.len()
                &&& self.fragments@[v@[k] as int].fragment_id == ids@[k]
                &&& fragment_valid(self.actor_infos@, self.fragments@[v@[k] as int])
            } by {
                assert(!built(self.actors@, ids@[k]));
            }
        }
        Ok(v)
    }

    /// Builds an actor for each fragment of `ids`, with its merger, operator
    /// chain and dispatcher, and the channels to its neighbours. A batch that
    /// is not valid is refused as a whole and nothing is built.
    pub fn build_fragment(&mut self, ids: &[u32]) -> (r: Result<(), BuildError>)
        requires
            old(self).wf(),
        ensures
            final(self).wf(),
            r is Ok <==> old(self).batch_valid(ids@),
            r is Err ==> *final(self) == *old(self),
            r matches Err(e) ==> old(self).build_error_cause(ids@, e),
            r is Ok ==> final(self).actors@.len() == old(self).actors@.len() + ids@.len(),
            r is Ok ==> forall|k: int| 0 <= k < ids@.len() ==>
                (#[trigger] final(self).actors@[old(self).actors@.len() + k]).fragment_id == ids@[k],
            r is Ok ==> forall|k: int| 0 <= k < ids@.len() ==>
                #[trigger] final(self).built_from(old(self).actors@.len() + k, description(old(self).fragments@, ids@[k])),
            r is Ok ==> forall|k: int| 0 <= k < old(self).actors@.len() ==>
                #[trigger] final(self).actors@[k] == old(self).actors@[k],
            r is Ok ==> final(self).actor_infos == old(self).actor_infos,
            r is Ok ==> final(self).fragments == old(self).fragments,
    {
        let idx = match self.check_batch(ids) {
            Ok(v) => v,
            Err(e) => {
                return Err(e);
            },
        };
        let ghost n0 = self.actors@.len();
        let mut k: usize = 0;
        while k < ids.len()
            invariant
                self.wf(),
                k <= ids.len(),
                idx@.len() == ids@.len(),
                self.actors@.len() == n0 + k,
                self.actor_infos == old(self).actor_infos,
                self.fragments == old(self).fragments,
                forall|q: int| 0 <= q < ids@.len() ==> {
                    &&& #[trigger] idx@[q] < self.fragments@.len()
                    &&& self.fragments@[idx@[q] as int].fragment_id == ids@[q]
                    &&& fragment_valid(self.actor_infos@, self.fragments@[idx@[q] as int])
                },
                forall|q: int| 0 <= q < k ==> (#[trigger] self.actors@[n0 + q]).fragment_id == ids@[q],
                forall|q: int| 0 <= q < k ==> #[trigger] self.built_from(n0 + q, self.fragments@[idx@[q] as int]),
                n0 == old(self).actors@.len(),
                forall|q: int| 0 <= q < n0 ==> #[trigger] self.actors@[q] == old(self).actors@[q],
            decreases ids.len() - k,
        {
            let fi = idx[k];
            assert(idx@[k as int] < self.fragments@.len());
            let ghost s0 = *self;
            self.instantiate(fi);
            proof {
                assert forall|q: int| 0 <= q < k + 1 implies #[trigger] self.built_from(n0 + q, self.fragments@[idx@[q] as int]) by {
                    if q < k {
                        lemma_built_from_kept(s0, *self, n0 + q, self.fragments@[idx@[q] as int]);
                    }
                }
            }
            k = k + 1;
        }
        proof {
            assert forall|q: int| 0 <= q < ids@.len() implies #[trigger] self.built_from(
                old(self).actors@.len() + q,
                description(old(self).fragments@, ids@[q]),
            ) by {
                let j = idx@[q] as int;
                assert(idx@[q] < self.fragments@.len());
                assert(self.fragments@[j].fragment_id == ids@[q]);
                assert(self.built_from(n0 + q, self.fragments@[j]));
                let i = choose|i: int| 0 <= i < self.fragments@.len() && self.fragments@[i].fragment_id == ids@[q];
                if i < j {
                    assert(self.fragments@[i].fragment_id != self.fragments@[j].fragment_id);
                } else if j < i {
                    assert(self.fragments@[j].fragment_id != self.fragments@[i].fragment_id);
                }
                assert(description(old(self).fragments@, ids@[q]) == self.fragments@[j]);
            }
        }
        Ok(())
    }

    /// Builds the actor of fragment description `fi`.
    fn instantiate(&mut self, fi: usize)
        requires
            old(self).wf(),
            fi < old(self).fragments@.len(),
            fragment_valid(old(self).actor_infos@, old(self).fragments@[fi as int]),
        ensures
            final(self).wf(),
            final(self).actor_infos == old(self).actor_infos,
            final(self).fragments == old(self).fragments,
            final(self).actors@ == old(self).actors@.push(final(self).actors@.last()),
            final(self).inputs@ == old(self).inputs@.push(final(self).inputs@.last()),
            final(self).outputs@ == old(self).outputs@.push(final(self).outputs@.last()),
            final(self).channels@.len() >= old(self).channels@.len(),
            forall|j: int| 0 <= j < old(self).channels@.len() ==> #[trigger] final(self).channels@[j] == old(self).channels@[j],
            final(self).built_from(old(self).actors@.len() as int, old(self).fragments@[fi as int]),
    {
        let fid = self.fragments[fi].fragment_id;
        let nd = self.fragments[fi].downstream_fragment_id.len();
        let nu = self.fragments[fi].upstream_fragment_id.len();
        let ghost c0 = self.channels@.len();
        let mut outs: Vec<usize> = Vec::new();
        let mut d: usize = 0;
        while d < nd
            invariant
                d <= nd,
                nd == self.fragments@[fi as int].downstream_fragment_id@.len(),
                fi < self.fragments@.len(),
                fid == self.fragments@[fi as int].fragment_id,
                self.actor_infos == old(self).actor_infos,
                self.fragments == old(self).fragments,
                self.actors == old(self).actors,
                self.inputs == old(self).inputs,
                self.outputs == old(self).outputs,
                self.failed == old(self).failed,
                self.channels@.len() >= old(self).channels@.len(),
                forall|j: int| 0 <= j < old(self).channels@.len() ==> #[trigger] self.channels@[j] == old(self).channels@[j],
                outs@.len() == d,
                forall|q: int| 0 <= q < d ==> #[trigger] outs@[q] < self.channels@.len(),
                forall|q: int| 0 <= q < d ==> self.channels@[#[trigger] outs@[q] as int].up == fid
                    && self.channels@[outs@[q] as int].down == self.fragments@[fi as int].downstream_fragment_id@[q],
            decreases nd - d,
        {
            let down = self.fragments[fi].downstream_fragment_id[d];
            let ghost prev = self.channels@;
            let ch = channel_for(&mut self.channels, fid, down);
            outs.push(ch);
            proof {
                assert forall|q: int| 0 <= q < d + 1 implies self.channels@[#[trigger] outs@[q] as int].up == fid
                    && self.channels@[outs@[q] as int].down == self.fragments@[fi as int].downstream_fragment_id@[q] by {
                    if q < d {
                        assert(self.channels@[outs@[q] as int] == prev[outs@[q] as int]);
                    }
                }
            }
            d = d + 1;
        }
        let mut ins: Vec<usize> = Vec::new();
        let mut u: usize = 0;
        while u < nu
            invariant
                u <= nu,
                nu == self.fragments@[fi as int].upstream_fragment_id@.len(),
                fi < self.fragments@.len(),
                fid == self.fragments@[fi as int].fragment_id,
                self.actor_infos == old(self).actor_infos,
                self.fragments == old(self).fragments,
                self.actors == old(self).actors,
                self.inputs == old(self).inputs,
                self.outputs == old(self).outputs,
                self.failed == old(self).failed,
                self.channels@.len() >= old(self).channels@.len(),
                forall|j: int| 0 <= j < old(self).channels@.len() ==> #[trigger] self.channels@[j] == old(self).channels@[j],
                outs@.len() == nd,
                forall|q: int| 0 <= q < nd ==> #[trigger] outs@[q] < self.channels@.len(),
                forall|q: int| 0 <= q < nd ==> self.channels@[#[trigger] outs@[q] as int].up == fid
                    && self.channels@[outs@[q] as int].down == self.fragments@[fi as int].downstream_fragment_id@[q],
                ins@.len() == u,
                forall|q: int| 0 <= q < u ==> #[trigger] ins@[q] < self.channels@.len(),
                forall|q: int| 0 <= q < u ==> self.channels@[#[trigger] ins@[q] as int].down == fid
                    && self.channels@[ins@[q] as int].up == self.fragments@[fi as int].upstream_fragment_id@[q],
            decreases nu - u,
        {
            let up = self.fragments[fi].upstream_fragment_id[u];
            let ghost prev = self.channels@;
            let ch = channel_for(&mut self.channels, up, fid);
            ins.push(ch);
            proof {
                assert forall|q: int| 0 <= q < nd implies self.channels@[#[trigger] outs@[q] as int].up == fid
                    && self.channels@[outs@[q] as int].down == self.fragments@[fi as int].downstream_fragment_id@[q] by {
                    assert(self.channels@[outs@[q] as int] == prev[outs@[q] as int]);
                }
                assert forall|q: int| 0 <= q < u + 1 implies self.channels@[#[trigger] ins@[q] as int].down == fid
                    && self.channels@[ins@[q] as int].up == self.fragments@[fi as int].upstream_fragment_id@[q] by {
                    if q < u {
                        assert(self.channels@[ins@[q] as int] == prev[ins@[q] as int]);
                    }
                }
            }
            u = u + 1;
        }
        let desc = match self.fragments[fi].dispatcher {
            Some(x) => x,
            None => DispatcherDesc { dispatcher_type: DispatcherType::Simple, column_idx: 0 },
        };
        let disp = match Dispatcher::new(desc, nd) {
            Ok(x) => x,
            Err(_) => {
                proof {
                    assert(dispatcher_ok(self.fragments@[fi as int]));
                    assert(false);
                }
                return;
            },
        };
        let project = copy_project(&self.fragments[fi].project);
        let actor = Actor::new(fid, nu, project, disp);
        let ghost old_self = *self;
        self.actors.push(actor);
        self.inputs.push(ins);
        self.outputs.push(outs);
        self.failed.push(false);
        proof {
            let a = old_self.actors@.len() as int;
            assert(self.actors@[a] == actor);
            assert(self.inputs@[a] == ins);
            assert(self.outputs@[a] == outs);
            assert(self.built_from(a, self.fragments@[fi as int]));
            assert forall|i: int| 0 <= i < self.actors@.len() implies {
                &&& (#[trigger] self.actors@[i]).wf()
                &&& self.inputs@[i]@.len() == self.actors@[i].merger.num_inputs()
                &&& self.outputs@[i]@.len() == self.actors@[i].dispatcher.outputs
                &&& forall|k: int| 0 <= k < self.inputs@[i]@.len() ==> #[trigger] self.inputs@[i]@[k] < self.channels@.len()
                &&& forall|k: int| 0 <= k < self.outputs@[i]@.len() ==> #[trigger] self.outputs@[i]@[k] < self.channels@.len()
            } by {
                if i < old_self.actors@.len() {
                    assert(self.actors@[i] == old(self).actors@[i]);
                    assert(self.inputs@[i] == old(self).inputs@[i]);
                    assert(self.outputs@[i] == old(self).outputs@[i]);
                }
            }
        }
    }
}

/// Building more actors leaves an actor's wiring as it was.
proof fn lemma_built_from_kept(s0: StreamManager, s1: StreamManager, a: int, f: StreamFragment)
    requires
        s0.wf(),
        0 <= a < s0.actors@.len(),
        s0.built_from(a, f),
        s1.actors@[a] == s0.actors@[a],
        s1.inputs@[a] == s0.inputs@[a],
        s1.outputs@[a] == s0.outputs@[a],
        forall|j: int| 0 <= j < s0.channels@.len() ==> #[trigger] s1.channels@[j] == s0.channels@[j],
    ensures
        s1.built_from(a, f),
{
    assert(s0.actors@[a].wf());
    assert forall|u: int| 0 <= u < f.upstream_fragment_id@.len() implies {
        &&& s1.channels@[#[trigger] s1.inputs@[a]@[u] as int].up == f.upstream_fragment_id@[u]
        &&& s1.channels@[s1.inputs@[a]@[u] as int].down == f.fragment_id
    } by {
        assert(s0.inputs@[a]@[u] < s0.channels@.len());
        assert(s1.channels@[s0.inputs@[a]@[u] as int] == s0.channels@[s0.inputs@[a]@[u] as int]);
    }
    assert forall|d: int| 0 <= d < f.downstream_fragment_id@.len() implies {
        &&& s1.channels@[#[trigger] s1.outputs@[a]@[d] as int].up == f.fragment_id
        &&& s1.channels@[s1.outputs@[a]@[d] as int].down == f.downstream_fragment_id@[d]
    } by {
        assert(s0.outputs@[a]@[d] < s0.channels@.len());
        assert(s1.channels@[s0.outputs@[a]@[d] as int] == s0.channels@[s0.outputs@[a]@[d] as int]);
    }
}

/// The index of the first description of fragment `id`.
fn find_fragment(frags: &Vec<StreamFragment>, id: u32) -> (r: Option<usize>)
    ensures
        r matches Some(i) ==> i < frags@.len() && frags@[i as int].fragment_id == id,
        r is None ==> !described(frags@, id),
{
    let mut i: usize = 0;
    while i < frags.len()
        invariant
            i <= frags.len(),
            forall|j: int| 0 <= j < i ==> (#[trigger] frags@[j]).fragment_id != id,
        decreases frags.len() - i,
    {
        if frags[i].fragment_id == id {
            return Some(i);
        }
        i = i + 1;
    }
    None
}

/// Whether fragment `id` already has an actor.
fn is_built(actors: &Vec<Actor>, id: u32) -> (r: bool)
    ensures
        r == built(actors@, id),
{
    let mut i: usize = 0;
    while i < actors.len()
        invariant
            i <= actors.len(),
            forall|j: int| 0 <= j < i ==> (#[trigger] actors@[j]).fragment_id != id,
        decreases actors.len() - i,
    {
        if actors[i].fragment_id == id {
            assert(actors@[i as int].fragment_id == id);
            return true;
        }
        i = i + 1;
    }
    false
}

/// Checks that every id of `f` resolves and that its dispatcher has the
/// downstreams it needs.
fn check_fragment(infos: &Vec<ActorInfo>, f: &StreamFragment) -> (r: Result<(), BuildError>)
    ensures
        r is Ok <==> fragment_valid(infos@, *f),
        r matches Err(e) ==> match e {
            BuildError::UnresolvedActor(x) => refers_unresolved(infos@, *f, x),
            BuildError::NoDownstream(x) => x == f.fragment_id && !dispatcher_ok(*f),
            _ => false,
        },
{
    let mut k: usize = 0;
    while k < f.upstream_fragment_id.len()
        invariant
            k <= f.upstream_fragment_id.len(),
            forall|q: int| 0 <= q < k ==> resolvable(infos@, #[trigger] f.upstream_fragment_id@[q]),
        decreases f.upstream_fragment_id.len() - k,
    {
        let id = f.upstream_fragment_id[k];
        if id != SOURCE_FRAGMENT_ID && !is_registered(infos, id) {
            return Err(BuildError::UnresolvedActor(id));
        }
        k = k + 1;
    }
    let mut k: usize = 0;
    while k < f.downstream_fragment_id.len()
        invariant
            k <= f.downstream_fragment_id.len(),
            forall|q: int| 0 <= q < f.upstream_fragment_id@.len() ==> resolvable(infos@, #[trigger] f.upstream_fragment_id@[q]),
            forall|q: int| 0 <= q < k ==> registered(infos@, #[trigger] f.downstream_fragment_id@[q]),
        decreases f.downstream_fragment_id.len() - k,
    {
        let id = f.downstream_fragment_id[k];
        if !is_registered(infos, id) {
            return Err(BuildError::UnresolvedActor(id));
        }
        k = k + 1;
    }
    match f.dispatcher {
        Some(d) => {
            if d.dispatcher_type != DispatcherType::Simple && f.downstream_fragment_id.len() == 0 {
                return Err(BuildError::NoDownstream(f.fragment_id));
            }
        },
        None => {},
    }
    Ok(())
}

/// The index of the channel from `up` to `down`, made if there is none yet.
fn channel_for(channels: &mut Vec<Channel>, up: u32, down: u32) -> (r: usize)
    ensures
        r < final(channels)@.len(),
        final(channels)@.len() >= old(channels)@.len(),
        final(channels)@[r as int].up == up,
        final(channels)@[r as int].down == down,
        forall|i: int| 0 <= i < old(channels)@.len() ==> #[trigger] final(channels)@[i] == old(channels)@[i],
{
    match find_channel(channels, up, down) {
        Some(i) => i,
        None => {
            channels.push(Channel { up, down, queue: Vec::new() });
            channels.len() - 1
        },
    }
}

/// The index of the first channel from `up` to `down`.
fn find_channel(channels: &Vec<Channel>, up: u32, down: u32) -> (r: Option<usize>)
    ensures
        r matches Some(i) ==> i < channels@.len() && channels@[i as int].up == up && channels@[i as int].down == down
            && forall|j: int| 0 <= j < i ==> !((#[trigger] channels@[j]).up == up && channels@[j].down == down),
        r is None ==> forall|j: int|
            0 <= j < channels@.len() ==> !((#[trigger] channels@[j]).up == up && channels@[j].down == down),
{
    let mut i: usize = 0;
    while i < channels.len()
        invariant
            i <= channels.len(),
            forall|j: int| 0 <= j < i ==> !((#[trigger] channels@[j]).up == up && channels@[j].down == down),
        decreases channels.len() - i,
    {
        if channels[i].up == up && channels[i].down == down {
            return Some(i);
        }
        i = i + 1;
    }
    None
}

/// A copy of a projection's column list.
fn copy_project(p: &Option<Vec<usize>>) -> (r: Option<Vec<usize>>)
    ensures
        r is Some <==> p is Some,
        r matches Some(v) ==> v@ == p->Some_0@,
{
    match p {
        None => None,
        Some(cols) => {
            let mut out: Vec<usize> = Vec::new();
            let mut i: usize = 0;
            while i < cols.len()
                invariant
                    i <= cols.len(),
                    out@ == cols@.take(i as int),
                decreases cols.len() - i,
            {
                out.push(cols[i]);
                i = i + 1;
                proof {
                    assert(cols@.take(i as int) =~= cols@.take(i - 1).push(cols@[i - 1]));
                }
            }
            proof {
                assert(cols@.take(cols.len() as int) =~= cols@);
            }
            Some(out)
        },
    }
}


impl StreamManager {
    /// Puts `msg` at the end of the channel from `up` to `down`; this is how
    /// the external source feeds the graph.
    pub fn send(&mut self, up: u32, down: u32, msg: Message) -> (r: Result<(), RuntimeError>)
        requires
            old(self).wf(),
        ensures
            final(self).wf(),
            r is Err <==> forall|j: int|
                0 <= j < old(self).channels@.len() ==> !((#[trigger] old(self).channels@[j]).up == up
                    && old(self).channels@[j].down == down),
            r is Err ==> r == Err::<(), RuntimeError>(RuntimeError::NoChannel { up, down })
                && *final(self) == *old(self),
            r is Ok ==> exists|i: int| {
                &&& 0 <= i < old(self).channels@.len()
                &&& (#[trigger] old(self).channels@[i]).up == up
                &&& old(self).channels@[i].down == down
                &&& final(self).channels@ == old(self).channels@.update(
                    i,
                    Channel {
                        up,
                        down,
                        queue: final(self).channels@[i].queue,
                    },
                )
                &&& final(self).channels@[i].queue@ == old(self).channels@[i].queue@.push(msg)
            },
            final(self).actors == old(self).actors,
    {
        match find_channel(&self.channels, up, down) {
            None => Err(RuntimeError::NoChannel { up, down }),
            Some(i) => {
                self.channels[i].queue.push(msg);
                Ok(())
            },
        }
    }

    /// Takes every message waiting on the channel from `up` to `down`, in order.
    pub fn take_output(&mut self, up: u32, down: u32) -> (r: Result<Vec<Message>, RuntimeError>)
        requires
            old(self).wf(),
        ensures
            final(self).wf(),
            r is Err <==> forall|j: int|
                0 <= j < old(self).channels@.len() ==> !((#[trigger] old(self).channels@[j]).up == up
                    && old(self).channels@[j].down == down),
            r is Err ==> r == Err::<Vec<Message>, RuntimeError>(RuntimeError::NoChannel { up, down })
                && *final(self) == *old(self),
            r matches Ok(v) ==> exists|i: int| {
                &&& 0 <= i < old(self).channels@.len()
                &&& (#[trigger] old(self).channels@[i]).up == up
                &&& old(self).channels@[i].down == down
                &&& v@ == old(self).channels@[i].queue@
                &&& final(self).channels@ == old(self).channels@.update(
                    i,
                    Channel { up, down, queue: final(self).channels@[i].queue },
                )
                &&& final(self).channels@[i].queue@.len() == 0
            },
            final(self).actors == old(self).actors,
    {
        match find_channel(&self.channels, up, down) {
            None => Err(RuntimeError::NoChannel { up, down }),
            Some(i) => {
                let mut taken: Vec<Message> = Vec::new();
                std::mem::swap(&mut taken, &mut self.channels[i].queue);
                Ok(taken)
            },
        }
    }

    /// Whether every actor has stopped.
    pub fn all_stopped(&self) -> (r: bool)
        ensures
            r == forall|i: int| 0 <= i < self.actors@.len() ==> (#[trigger] self.actors@[i]).state == ActorState::Stopped,
    {
        let mut i: usize = 0;
        while i < self.actors.len()
            invariant
                i <= self.actors.len(),
                forall|j: int| 0 <= j < i ==> (#[trigger] self.actors@[j]).state == ActorState::Stopped,
            decreases self.actors.len() - i,
        {
            if self.actors[i].state != ActorState::Stopped {
                return false;
            }
            i = i + 1;
        }
        true
    }

    /// Finds a live actor with a message waiting on a channel it may read.
    fn find_work(&self) -> (r: Option<(usize, usize)>)
        requires
            self.wf(),
        ensures
            r matches Some((i, k)) ==> i < self.actors@.len() && k < self.inputs@[i as int]@.len() && self.ready(
                i as int,
                k as int,
            ),
            r is None ==> !self.has_work(),
    {
        let mut i: usize = 0;
        while i < self.actors.len()
            invariant
                self.wf(),
                i <= self.actors.len(),
                forall|a: int, k: int|
                    0 <= a < i && 0 <= k < self.inputs@[a]@.len() ==> !#[trigger] self.ready(a, k),
            decreases self.actors.len() - i,
        {
            assert(self.actors@[i as int].wf());
            if !self.failed[i] && self.actors[i].state != ActorState::Stopped {
                let mut k: usize = 0;
                while k < self.inputs[i].len()
                    invariant
                        self.wf(),
                        i < self.actors.len(),
                        !self.failed@[i as int],
                        self.actors@[i as int].state != ActorState::Stopped,
                        k <= self.inputs@[i as int]@.len(),
                        forall|a: int, q: int|
                            0 <= a < i && 0 <= q < self.inputs@[a]@.len() ==> !#[trigger] self.ready(a, q),
                        forall|q: int| 0 <= q < k ==> !#[trigger] self.ready(i as int, q),
                    decreases self.inputs@[i as int]@.len() - k,
                {
                    assert(self.actors@[i as int].wf());
                    let ch = self.inputs[i][k];
                    assert(ch < self.channels@.len());
                    if self.actors[i].merger.can_pull(k) && self.channels[ch].queue.len() > 0 {
                        return Some((i, k));
                    }
                    k = k + 1;
                }
            }
            i = i + 1;
        }
        None
    }

    /// Moves one message: a live actor takes it from one of its channels and
    /// what it emits goes to its downstream channels. `Ok(false)` when no
    /// actor can move; an actor that fails is not scheduled again.
    pub fn step(&mut self) -> (r: Result<bool, RuntimeError>)
        requires
            old(self).wf(),
        ensures
            final(self).wf(),
            r == Ok::<bool, RuntimeError>(false) <==> !old(self).has_work(),
            r == Ok::<bool, RuntimeError>(false) ==> *final(self) == *old(self),
            final(self).actors@.len() == old(self).actors@.len(),
            final(self).actor_infos == old(self).actor_infos,
            final(self).fragments == old(self).fragments,
            final(self).inputs == old(self).inputs,
            final(self).outputs == old(self).outputs,
            r == Ok::<bool, RuntimeError>(true) ==> exists|i: int, k: int, v: Vec<Option<Message>>| {
                let ch = old(self).inputs@[i]@[k] as int;
                &&& 0 <= i < old(self).actors@.len()
                &&& 0 <= k < old(self).inputs@[i]@.len()
                &&& old(self).ready(i, k)
                &&& #[trigger] input_step(
                    old(self).actors@[i],
                    k as usize,
                    old(self).channels@[old(self).inputs@[i]@[k] as int].queue@[0]@,
                    Ok(v),
                    final(self).actors@[i],
                )
                &&& final(self).actors@ == old(self).actors@.update(i, final(self).actors@[i])
                &&& final(self).failed == old(self).failed
                &&& queues_after(old(self).channels@, final(self).channels@, ch, old(self).outputs@[i]@, v@)
            },
            r matches Err(e) ==> exists|i: int, k: int, error: ActorError| {
                let ch = old(self).inputs@[i]@[k] as int;
                &&& 0 <= i < old(self).actors@.len()
                &&& 0 <= k < old(self).inputs@[i]@.len()
                &&& old(self).ready(i, k)
                &&& #[trigger] input_step(
                    old(self).actors@[i],
                    k as usize,
                    old(self).channels@[old(self).inputs@[i]@[k] as int].queue@[0]@,
                    Err(error),
                    final(self).actors@[i],
                )
                &&& e == RuntimeError::ActorFailed { fragment_id: old(self).actors@[i].fragment_id, error }
                &&& final(self).actors@ == old(self).actors@.update(i, final(self).actors@[i])
                &&& final(self).failed@ == old(self).failed@.update(i, true)
                &&& queues_after(old(self).channels@, final(self).channels@, ch, old(self).outputs@[i]@, Seq::empty())
            },
    {
        match self.find_work() {
            None => Ok(false),
            Some((i, k)) => {
                let ch = self.inputs[i][k];
                assert(self.actors@[i as int].wf());
                assert(ch < self.channels@.len());
                let ghost before = *self;
                let msg = self.channels[ch].queue.remove(0);
                assert(msg == before.channels@[ch as int].queue@[0]);
                let ghost removed = self.channels@;
                proof {
                    assert forall|t: int| 0 <= t < before.channels@.len() implies {
                        &&& (#[trigger] removed[t]).up == before.channels@[t].up
                        &&& removed[t].down == before.channels@[t].down
                        &&& removed[t].queue@ == (if t == ch {
                            before.channels@[t].queue@.drop_first()
                        } else {
                            before.channels@[t].queue@
                        })
                    } by {
                        if t == ch {
                            assert(removed[t].queue@ =~= before.channels@[t].queue@.drop_first());
                        }
                    }
                }
                assert(self.actors@ == before.actors@);
                let res = self.actors[i].on_input(k, msg);
                proof {
                    assert forall|a: int| 0 <= a < self.actors@.len() implies {
                        &&& (#[trigger] self.actors@[a]).wf()
                        &&& self.inputs@[a]@.len() == self.actors@[a].merger.num_inputs()
                        &&& self.outputs@[a]@.len() == self.actors@[a].dispatcher.outputs
                        &&& forall|q: int| 0 <= q < self.inputs@[a]@.len() ==> #[trigger] self.inputs@[a]@[q] < self.channels@.len()
                        &&& forall|q: int| 0 <= q < self.outputs@[a]@.len() ==> #[trigger] self.outputs@[a]@[q] < self.channels@.len()
                    } by {
                        assert(before.actors@[a].wf());
                    }
                }
                match res {
                    Ok(outs) => {
                        let ghost v = outs;
                        deliver(&mut self.channels, &self.outputs[i], outs);
                        proof {
                            assert(before.ready(i as int, k as int));
                            assert(self.actors@ =~= before.actors@.update(i as int, self.actors@[i as int]));
                            assert forall|t: int| 0 <= t < before.channels@.len() implies {
                                &&& (#[trigger] self.channels@[t]).up == before.channels@[t].up
                                &&& self.channels@[t].down == before.channels@[t].down
                                &&& self.channels@[t].queue@ == (if t == ch {
                                    before.channels@[t].queue@.drop_first()
                                } else {
                                    before.channels@[t].queue@
                                }) + deliveries(before.outputs@[i as int]@, v@, t)
                            } by {
                                assert(removed[t].up == before.channels@[t].up);
                            }
                            assert(input_step(
                                before.actors@[i as int],
                                k,
                                before.channels@[ch as int].queue@[0]@,
                                Ok(v),
                                self.actors@[i as int],
                            ));
                        }
                        Ok(true)
                    },
                    Err(e) => {
                        let fragment_id = self.actors[i].fragment_id;
                        self.failed[i] = true;
                        proof {
                            assert(self.actors@ =~= before.actors@.update(i as int, self.actors@[i as int]));
                            assert forall|t: int| 0 <= t < before.channels@.len() implies {
                                &&& (#[trigger] self.channels@[t]).up == before.channels@[t].up
                                &&& self.channels@[t].down == before.channels@[t].down
                                &&& self.channels@[t].queue@ == (if t == ch {
                                    before.channels@[t].queue@.drop_first()
                                } else {
                                    before.channels@[t].queue@
                                }) + deliveries(before.outputs@[i as int]@, Seq::empty(), t)
                            } by {
                                assert(removed[t].up == before.channels@[t].up);
                                assert(self.channels@[t].queue@ =~= removed[t].queue@ + deliveries(before.outputs@[i as int]@, Seq::empty(), t));
                            }
                            assert(input_step(
                                before.actors@[i as int],
                                k,
                                before.channels@[ch as int].queue@[0]@,
                                Err(e),
                                self.actors@[i as int],
                            ));
                        }
                        Err(RuntimeError::ActorFailed { fragment_id, error: e })
                    },
                }
            },
        }
    }
}

/// The messages of `outs` that go to channel `t`, in order: element `d`,
/// where there is one, goes to channel `targets[d]`.
pub open spec fn deliveries(targets: Seq<usize>, outs: Seq<Option<Message>>, t: int) -> Seq<Message>
    decreases outs.len(),
{
    if outs.len() == 0 {
        Seq::empty()
    } else {
        let prev = deliveries(targets, outs.drop_last(), t);
        match outs.last() {
            Some(m) => if targets[outs.len() - 1] == t {
                prev.push(m)
            } else {
                prev
            },
            None => prev,
        }
    }
}

/// The channels `new` are `old` after the first message of channel `from`
/// was taken (none when `from` is not a channel) and `outs` was delivered to `targets`.
pub open spec fn queues_after(
    old: Seq<Channel>,
    new: Seq<Channel>,
    from: int,
    targets: Seq<usize>,
    outs: Seq<Option<Message>>,
) -> bool {
    &&& new.len() == old.len()
    &&& forall|t: int| 0 <= t < old.len() ==> {
        &&& (#[trigger] new[t]).up == old[t].up
        &&& new[t].down == old[t].down
        &&& new[t].queue@ == (if t == from {
            old[t].queue@.drop_first()
        } else {
            old[t].queue@
        }) + deliveries(targets, outs, t)
    }
}

/// Puts element `d` of `outs`, where there is one, on channel `targets[d]`.
fn deliver(channels: &mut Vec<Channel>, targets: &Vec<usize>, outs: Vec<Option<Message>>)
    requires
        outs@.len() == 0 || outs@.len() == targets@.len(),
        forall|q: int| 0 <= q < targets@.len() ==> #[trigger] targets@[q] < old(channels)@.len(),
    ensures
        queues_after(old(channels)@, final(channels)@, -1, targets@, outs@),
{
    let ghost all = outs@;
    let n = outs.len();
    let mut rest = outs;
    let mut d: usize = 0;
    while d < n
        invariant
            n == all.len(),
            n == 0 || n == targets@.len(),
            d <= n,
            rest@ == all.skip(d as int),
            forall|q: int| 0 <= q < targets@.len() ==> #[trigger] targets@[q] < old(channels)@.len(),
            queues_after(old(channels)@, channels@, -1, targets@, all.take(d as int)),
        decreases n - d,
    {
        let o = rest.remove(0);
        assert(o == all[d as int]);
        assert(all.take(d + 1).drop_last() =~= all.take(d as int));
        assert(all.take(d + 1).last() == o);
        let ghost mid = channels@;
        match o {
            Some(m) => {
                let t = targets[d];
                channels[t].queue.push(m);
                proof {
                    assert forall|u: int| 0 <= u < old(channels)@.len() implies {
                        &&& (#[trigger] channels@[u]).up == old(channels)@[u].up
                        &&& channels@[u].down == old(channels)@[u].down
                        &&& channels@[u].queue@ == old(channels)@[u].queue@ + deliveries(targets@, all.take(d + 1), u)
                    } by {
                        assert(mid[u].queue@ == old(channels)@[u].queue@ + deliveries(targets@, all.take(d as int), u));
                        if u == t {
                            assert(channels@[u].queue@ =~= mid[u].queue@.push(m));
                        } else {
                            assert(channels@[u] == mid[u]);
                        }
                    }
                }
            },
            None => {
                proof {
                    assert forall|u: int| 0 <= u < old(channels)@.len() implies {
                        &&& (#[trigger] channels@[u]).up == old(channels)@[u].up
                        &&& channels@[u].down == old(channels)@[u].down
                        &&& channels@[u].queue@ == old(channels)@[u].queue@ + deliveries(targets@, all.take(d + 1), u)
                    } by {
                        assert(mid[u].queue@ == old(channels)@[u].queue@ + deliveries(targets@, all.take(d as int), u));
                    }
                }
            },
        }
        assert(rest@ =~= all.skip(d + 1));
        d = d + 1;
    }
    proof {
        assert(all.take(n as int) =~= all);
    }
}

} // verus!
