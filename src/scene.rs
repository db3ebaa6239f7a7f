//! The scene: an insertion-ordered list of intersectable objects, the choice
//! of the closest hit among them, and the root policy of a sphere test.
//!
//! Hit distances along a ray enter here as ordered keys: a smaller key is a
//! hit closer to the ray's origin.
use vstd::prelude::*;

verus! {

/// An insertion-ordered collection of scene objects; no deduplication, no
/// spatial index.
pub struct HittableList<T> {
    objects: Vec<T>,
}

impl<T> View for HittableList<T> {
    type V = Seq<T>;

    closed spec fn view(&self) -> Seq<T> {
        self.objects@
    }
}

impl<T> HittableList<T> {
    /// An empty scene.
    pub fn new() -> (list: Self)
        ensures
            list@ == Seq::<T>::empty(),
    {
        HittableList { objects: Vec::new() }
    }

    /// Appends `object` after every object already in the scene.
    pub fn add(&mut self, object: T)
        ensures
            final(self)@ == old(self)@.push(object),
    {
        self.objects.push(object);
    }

    /// Removes every object.
    pub fn clear(&mut self)
        ensures
            final(self)@ == Seq::<T>::empty(),
    {
        self.objects.clear();
    }

    /// The objects, in the order they were added.
    pub fn objects(&self) -> (objects: &[T])
        ensures
            objects@ == self@,
    {
        self.objects.as_slice()
    }
}

/// `i` is the member whose hit is closest: it hits, no member hits closer,
/// and every member before it that hits does so strictly farther away.
pub open spec fn is_nearest(hits: Seq<Option<u32>>, i: int) -> bool {
    &&& 0 <= i < hits.len()
    &&& hits[i] is Some
    &&& forall|j: int|
        0 <= j < hits.len() && #[trigger] hits[j] is Some ==> hits[i]->0 <= hits[j]->0
    &&& forall|j: int| 0 <= j < i && #[trigger] hits[j] is Some ==> hits[i]->0 < hits[j]->0
}

/// No member hits.
pub open spec fn all_miss(hits: Seq<Option<u32>>) -> bool {
    forall|j: int| 0 <= j < hits.len() ==> #[trigger] hits[j] is None
}

/// Index of the member with the closest hit, given each member's hit key
/// (`None` for a member the ray misses); `None` when every member misses.
/// The scan keeps a shrinking bound, so among equally close hits the first
/// member wins.
pub fn nearest_hit(hits: &[Option<u32>]) -> (best: Option<usize>)
    ensures
        best is None <==> all_miss(hits@),
        best matches Some(i) ==> is_nearest(hits@, i as int),
{
    let mut best: Option<usize> = None;
    let mut closest: u32 = 0;
    let mut k: usize = 0;
    while k < hits.len()
        invariant
            0 <= k <= hits@.len(),
            best is None ==> all_miss(hits@.subrange(0, k as int)),
            best matches Some(i) ==> {
                &&& is_nearest(hits@.subrange(0, k as int), i as int)
                &&& hits@[i as int] == Some(closest)
            },
        decreases hits@.len() - k,
    {
        if let Some(key) = hits[k] {
            if best.is_none() || key < closest {
                best = Some(k);
                closest = key;
            }
        }
        proof {
            let prefix = hits@.subrange(0, k + 1);
            assert(forall|j: int| 0 <= j < k ==> prefix[j] == hits@.subrange(0, k as int)[j]);
        }
        k = k + 1;
    }
    assert(hits@.subrange(0, hits@.len() as int) =~= hits@);
    best
}

/// At most one member is the closest hit.
pub proof fn lemma_nearest_unique(hits: Seq<Option<u32>>, i: int, j: int)
    requires
        is_nearest(hits, i),
        is_nearest(hits, j),
    ensures
        i == j,
{
    if i < j {
        assert(hits[j] is Some);
    } else if j < i {
        assert(hits[i] is Some);
    }
}

/// Adding a member whose hit key is `key` to the end of the scene: it becomes
/// the closest hit when no earlier member hits or the earlier closest hit is
/// strictly farther; otherwise the earlier closest hit stays.
pub proof fn lemma_added_member(hits: Seq<Option<u32>>, key: u32)
    ensures
        all_miss(hits) ==> is_nearest(hits.push(Some(key)), hits.len() as int),
        forall|i: int| #[trigger]
            is_nearest(hits, i) ==> if key < hits[i]->0 {
                is_nearest(hits.push(Some(key)), hits.len() as int)
            } else {
                is_nearest(hits.push(Some(key)), i)
            },
{
    let more = hits.push(Some(key));
    assert(forall|j: int| 0 <= j < hits.len() ==> more[j] == hits[j]);
    assert(more[hits.len() as int] == Some(key));
}

/// Which root of a ray-sphere quadratic is taken as the hit.
#[derive(PartialEq, Eq, Structural, Clone, Copy, Debug)]
pub enum Root {
    /// The smaller root.
    Near,
    /// The larger root.
    Far,
}

/// The root policy: the smaller root when it lies inside the allowed range,
/// else the larger one when it does, else no hit.
pub fn pick_root(near_in_range: bool, far_in_range: bool) -> (root: Option<Root>)
    ensures
        near_in_range ==> root == Some(Root::Near),
        !near_in_range && far_in_range ==> root == Some(Root::Far),
        !near_in_range && !far_in_range ==> root is None,
{
    if near_in_range {
        Some(Root::Near)
    } else if far_in_range {
        Some(Root::Far)
    } else {
        None
    }
}

} // verus!
