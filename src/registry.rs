use vstd::prelude::*;

verus! {

/// A network location.
#[derive(Debug, Clone)]
pub struct HostAddress {
    pub host: String,
    pub port: i32,
}

/// Where the actor of a fragment runs.
#[derive(Debug, Clone)]
pub struct ActorInfo {
    pub fragment_id: u32,
    pub host: Option<HostAddress>,
}

/// Some entry of `infos` belongs to fragment `id`.
pub open spec fn registered(infos: Seq<ActorInfo>, id: u32) -> bool {
    exists|i: int| 0 <= i < infos.len() && (#[trigger] infos[i]).fragment_id == id
}

/// No two entries of `infos` belong to the same fragment.
pub open spec fn unique_ids(infos: Seq<ActorInfo>) -> bool {
    forall|i: int, j: int|
        0 <= i < j < infos.len() ==> (#[trigger] infos[i]).fragment_id != (#[trigger] infos[j]).fragment_id
}

/// Whether fragment `id` has an entry.
pub fn is_registered(infos: &Vec<ActorInfo>, id: u32) -> (r: bool)
    ensures
        r == registered(infos@, id),
{
    let mut i: usize = 0;
    while i < infos.len()
        invariant
            i <= infos.len(),
            forall|j: int| 0 <= j < i ==> (#[trigger] infos@[j]).fragment_id != id,
        decreases infos.len() - i,
    {
        if infos[i].fragment_id == id {
            assert(infos@[i as int].fragment_id == id);
            return true;
        }
        i = i + 1;
    }
    false
}

/// The entry of fragment `id`, if there is one.
pub fn lookup(infos: &Vec<ActorInfo>, id: u32) -> (r: Option<&ActorInfo>)
    ensures
        r is None <==> !registered(infos@, id),
        r matches Some(a) ==> a.fragment_id == id && exists|i: int| 0 <= i < infos@.len() && #[trigger] infos@[i] == *a,
{
    let mut i: usize = 0;
    while i < infos.len()
        invariant
            i <= infos.len(),
            forall|j: int| 0 <= j < i ==> (#[trigger] infos@[j]).fragment_id != id,
        decreases infos.len() - i,
    {
        if infos[i].fragment_id == id {
            assert(infos@[i as int] == infos[i as int]);
            return Some(&infos[i]);
        }
        i = i + 1;
    }
    None
}

/// The first fragment id that occurs twice in `infos`, if any.
pub fn find_duplicate_actor(infos: &Vec<ActorInfo>) -> (r: Option<u32>)
    ensures
        r is None <==> unique_ids(infos@),
        r matches Some(id) ==> exists|i: int, j: int|
            0 <= i < j < infos@.len() && (#[trigger] infos@[i]).fragment_id == id && (#[trigger] infos@[j]).fragment_id == id,
{
    let mut j: usize = 0;
    while j < infos.len()
        invariant
            j <= infos.len(),
            forall|a: int, b: int|
                0 <= a < b < j ==> (#[trigger] infos@[a]).fragment_id != (#[trigger] infos@[b]).fragment_id,
        decreases infos.len() - j,
    {
        let mut i: usize = 0;
        while i < j
            invariant
                i <= j < infos.len(),
                forall|a: int, b: int|
                    0 <= a < b < j ==> (#[trigger] infos@[a]).fragment_id != (#[trigger] infos@[b]).fragment_id,
                forall|a: int| 0 <= a < i ==> (#[trigger] infos@[a]).fragment_id != infos@[j as int].fragment_id,
            decreases j - i,
        {
            if infos[i].fragment_id == infos[j].fragment_id {
                return Some(infos[j].fragment_id);
            }
            i = i + 1;
        }
        j = j + 1;
    }
    None
}

} // verus!
