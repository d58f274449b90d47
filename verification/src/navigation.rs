//! Which children of the container views are shown, and how a navigation
//! stack reconciles its children with a new path.
use vstd::prelude::*;
use vstd::std_specs::cmp::PartialEqSpec;

verus! {

/// `n` is the length of the longest common prefix of the two key lists,
/// under the keys' equality.
pub open spec fn is_shared_prefix_len<K: PartialEq>(a: Seq<K>, b: Seq<K>, n: int) -> bool {
    &&& 0 <= n <= a.len()
    &&& n <= b.len()
    &&& forall|i: int| 0 <= i < n ==> (#[trigger] a[i]).eq_spec(&b[i])
    &&& (n < a.len() && n < b.len() ==> !a[n].eq_spec(&b[n]))
}

/// The length of the longest common prefix of the keys of the children a
/// navigation stack holds and the keys of the incoming path. What it says
/// of the keys holds where their `==` behaves as its specification says.
pub fn shared_prefix_len<K: PartialEq>(existing: &Vec<K>, incoming: &Vec<K>) -> (n: usize)
    ensures
        n <= existing@.len(),
        n <= incoming@.len(),
        K::obeys_eq_spec() ==> is_shared_prefix_len(existing@, incoming@, n as int),
{
    let mut n: usize = 0;
    while n < existing.len() && n < incoming.len() && existing[n] == incoming[n]
        invariant
            n <= existing@.len(),
            n <= incoming@.len(),
            K::obeys_eq_spec() ==> forall|i: int| 0 <= i < n ==> (#[trigger] existing@[i]).eq_spec(
                &incoming@[i],
            ),
        decreases existing@.len() - n,
    {
        n = n + 1;
    }
    n
}

/// Reconciles the keys of a navigation stack's children with the keys of
/// a new path: the children of the longest common prefix stay, the others
/// are removed, and the path's keys after the prefix are appended. Returns
/// the length of the prefix kept and the keys removed, in order, whose
/// views are then disposed of.
pub fn sync_path<K: PartialEq>(children: &mut Vec<K>, path: Vec<K>) -> (r: (usize, Vec<K>))
    ensures
        r.0 <= old(children)@.len(),
        r.0 <= path@.len(),
        K::obeys_eq_spec() ==> is_shared_prefix_len(old(children)@, path@, r.0 as int),
        final(children)@ == old(children)@.take(r.0 as int) + path@.skip(r.0 as int),
        r.1@ == old(children)@.skip(r.0 as int),
{
    let ghost incoming = path@;
    let n = shared_prefix_len(children, &path);
    let removed = children.split_off(n);
    let mut path = path;
    let mut added = path.split_off(n);
    children.append(&mut added);
    proof {
        assert(children@ =~= old(children)@.take(n as int) + incoming.skip(n as int)) by {
            assert(old(children)@.subrange(0, n as int) =~= old(children)@.take(n as int));
        }
    }
    (n, removed)
}

/// Once reconciled, the children's keys are the path's keys, where the
/// keys' equality is plain equality.
pub proof fn lemma_sync_path_matches_path<K: PartialEq>(
    old_children: Seq<K>,
    path: Seq<K>,
    kept: int,
    new_children: Seq<K>,
)
    requires
        forall|a: K, b: K| #[trigger] a.eq_spec(&b) <==> a == b,
        is_shared_prefix_len(old_children, path, kept),
        new_children == old_children.take(kept) + path.skip(kept),
    ensures
        new_children == path,
{
    assert forall|i: int| 0 <= i < path.len() implies new_children[i] == path[i] by {
        if i < kept {
            assert(old_children[i].eq_spec(&path[i]));
        }
    }
    assert(new_children =~= path);
}

/// Which children of a navigation stack are shown: only the last.
pub fn navigation_visibility(count: usize) -> (shown: Vec<bool>)
    ensures
        shown@.len() == count,
        forall|i: int| 0 <= i < count ==> shown@[i] == (i == count - 1),
{
    let mut shown: Vec<bool> = Vec::new();
    let mut i: usize = 0;
    while i < count
        invariant
            i <= count,
            shown@.len() == i,
            forall|j: int| 0 <= j < i ==> shown@[j] == (j == count - 1),
        decreases count - i,
    {
        shown.push(i + 1 == count);
        i = i + 1;
    }
    shown
}

/// Which children of a tab view are shown: only the active one, if any.
pub fn tab_visibility(active: Option<usize>, count: usize) -> (shown: Vec<bool>)
    ensures
        shown@.len() == count,
        forall|i: int| 0 <= i < count ==> shown@[i] == (active == Some(i as usize)),
{
    let mut shown: Vec<bool> = Vec::new();
    let mut i: usize = 0;
    while i < count
        invariant
            i <= count,
            shown@.len() == i,
            forall|j: int| 0 <= j < i ==> shown@[j] == (active == Some(j as usize)),
        decreases count - i,
    {
        let is_active = match active {
            Some(a) => a == i,
            None => false,
        };
        shown.push(is_active);
        i = i + 1;
    }
    shown
}

} // verus!
