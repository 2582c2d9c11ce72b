//! The immutable reference catalog: category definitions (`OreType`) and
//! point definitions (`OrePoint`), loaded once at startup and read-only
//! thereafter.

use vstd::prelude::*;
use vstd::string::StringExecFns;

verus! {

/// A category of points. Its `id` is a power-of-two bit flag; a point's
/// `ore_type` mask is the bitwise OR of the categories it belongs to.
#[derive(Clone, Debug)]
pub struct OreType {
    pub id: i32,
    pub name: String,
    pub emoji: String,
}

/// A contestable named point with fixed coordinates and a category mask.
#[derive(Clone, Debug)]
pub struct OrePoint {
    pub id: i32,
    pub ore_type: i32,
    pub x: i32,
    pub y: i32,
    pub name: String,
}

/// The process-lifetime catalog: every category and every point, in id order.
pub struct Catalog {
    pub ore_types: Vec<OreType>,
    pub ore_points: Vec<OrePoint>,
}

/// The first point in `points` whose id is `id`, if any.
pub open spec fn find_point(points: Seq<OrePoint>, id: i32) -> Option<OrePoint>
    decreases points.len(),
{
    if points.len() == 0 {
        None
    } else if points[0].id == id {
        Some(points[0])
    } else {
        find_point(points.drop_first(), id)
    }
}

/// The category mask of point `id`, or the empty mask if the catalog does
/// not know the point (an unknown point belongs to no category).
pub open spec fn point_mask(points: Seq<OrePoint>, id: i32) -> i32 {
    match find_point(points, id) {
        Some(p) => p.ore_type,
        None => 0,
    }
}

/// The emoji markup of a category mask: `<emoji>` for each category whose
/// bit is set in `mask`, in catalog order.
pub open spec fn emoji_seq(types: Seq<OreType>, mask: i32) -> Seq<char>
    decreases types.len(),
{
    if types.len() == 0 {
        Seq::empty()
    } else {
        emoji_seq(types.drop_last(), mask) + (if types.last().id & mask != 0 {
            seq!['<'] + types.last().emoji@ + seq!['>']
        } else {
            Seq::<char>::empty()
        })
    }
}

proof fn lemma_find_point_step(points: Seq<OrePoint>, id: i32, i: int)
    requires
        0 <= i < points.len(),
        forall|j: int| 0 <= j < i ==> (#[trigger] points[j]).id != id,
    ensures
        find_point(points, id) == if points[i].id == id {
            Some(points[i])
        } else {
            find_point(points, id)
        },
        points[i].id != id ==> find_point(points.subrange(i + 1, points.len() as int), id)
            == find_point(points, id),
    decreases i,
{
    if i == 0 {
        if points[0].id != id {
            assert(points.drop_first() =~= points.subrange(1, points.len() as int));
        }
    } else {
        assert(points[0].id != id);
        let rest = points.drop_first();
        lemma_find_point_step(rest, id, i - 1);
        assert(rest[i - 1] == points[i]);
        if points[i].id != id {
            assert(rest.subrange(i, rest.len() as int) =~= points.subrange(
                i + 1,
                points.len() as int,
            ));
        }
    }
}

proof fn lemma_find_point_none(points: Seq<OrePoint>, id: i32)
    requires
        forall|j: int| 0 <= j < points.len() ==> (#[trigger] points[j]).id != id,
    ensures
        find_point(points, id) is None,
    decreases points.len(),
{
    if points.len() > 0 {
        lemma_find_point_none(points.drop_first(), id);
    }
}

/// Whether `id` is a single category bit flag: positive and a power of
/// two.
pub open spec fn is_category_flag(id: i32) -> bool {
    1 <= id && id & ((id - 1) as i32) == 0
}

impl Catalog {
    /// Well-formedness. Categories: each id is a single power-of-two bit
    /// flag, in strictly increasing order. Points: ids are positive and
    /// strictly increasing, each point belongs to at least one category,
    /// and the catalog fits the counters used for paging.
    pub open spec fn wf(self) -> bool {
        &&& forall|i: int|
            0 <= i < self.ore_types@.len() ==> is_category_flag(
                (#[trigger] self.ore_types@[i]).id,
            )
        &&& forall|i: int, j: int|
            0 <= i < j < self.ore_types@.len() ==> (#[trigger] self.ore_types@[i]).id < (
            #[trigger] self.ore_types@[j]).id
        &&& forall|i: int|
            0 <= i < self.ore_points@.len() ==> 1 <= (#[trigger] self.ore_points@[i]).id
        &&& forall|i: int|
            0 <= i < self.ore_points@.len() ==> (#[trigger] self.ore_points@[i]).ore_type != 0
        &&& forall|i: int, j: int|
            0 <= i < j < self.ore_points@.len() ==> (#[trigger] self.ore_points@[i]).id < (
            #[trigger] self.ore_points@[j]).id
        &&& self.ore_points@.len() <= u32::MAX
    }

    /// Builds the catalog after validating it: every category id a
    /// distinct power-of-two bit flag in ascending order, every point id
    /// positive and strictly increasing, every point in at least one
    /// category. A partial or disordered catalog is refused, so a caller
    /// can fail fatally at startup instead of running with one.
    pub fn new(ore_types: Vec<OreType>, ore_points: Vec<OrePoint>) -> (r: Option<Catalog>)
        ensures
            match r {
                Some(c) => {
                    &&& c.wf()
                    &&& c.ore_types@ == ore_types@
                    &&& c.ore_points@ == ore_points@
                },
                None => !(Catalog { ore_types, ore_points }).wf(),
            },
    {
        if ore_points.len() > u32::MAX as usize {
            return None;
        }
        let mut t: usize = 0;
        while t < ore_types.len()
            invariant
                t <= ore_types@.len(),
                forall|k: int|
                    0 <= k < t ==> is_category_flag((#[trigger] ore_types@[k]).id),
                forall|k: int, l: int|
                    0 <= k < l < t ==> (#[trigger] ore_types@[k]).id < (
                    #[trigger] ore_types@[l]).id,
            decreases ore_types@.len() - t,
        {
            let ty = &ore_types[t];
            if ty.id < 1 || ty.id & (ty.id - 1) != 0 {
                proof {
                    let c = (Catalog { ore_types, ore_points });
                    assert(!is_category_flag(c.ore_types@[t as int].id));
                }
                return None;
            }
            if t > 0 && ore_types[t - 1].id >= ty.id {
                proof {
                    let c = (Catalog { ore_types, ore_points });
                    assert(!(c.ore_types@[t as int - 1].id < c.ore_types@[t as int].id));
                }
                return None;
            }
            assert(forall|k: int|
                0 <= k < t ==> (#[trigger] ore_types@[k]).id <= ore_types@[t as int - 1].id);
            t += 1;
        }
        let mut i: usize = 0;
        while i < ore_points.len()
            invariant
                i <= ore_points@.len(),
                forall|k: int| 0 <= k < i ==> 1 <= (#[trigger] ore_points@[k]).id,
                forall|k: int| 0 <= k < i ==> (#[trigger] ore_points@[k]).ore_type != 0,
                forall|k: int, l: int|
                    0 <= k < l < i ==> (#[trigger] ore_points@[k]).id < (
                    #[trigger] ore_points@[l]).id,
            decreases ore_points@.len() - i,
        {
            let p = &ore_points[i];
            if p.id < 1 || p.ore_type == 0 {
                return None;
            }
            if i > 0 && ore_points[i - 1].id >= p.id {
                return None;
            }
            assert(forall|k: int|
                0 <= k < i ==> (#[trigger] ore_points@[k]).id <= ore_points@[i as int - 1].id);
            i += 1;
        }
        Some(Catalog { ore_types, ore_points })
    }

    /// The number of points in the catalog.
    pub fn get_point_count(&self) -> (r: u32)
        requires
            self.wf(),
        ensures
            r == self.ore_points@.len(),
    {
        self.ore_points.len() as u32
    }

    /// The index of the point with id `id`, if the catalog has one.
    pub fn find_point_index(&self, id: i32) -> (r: Option<usize>)
        ensures
            match r {
                Some(i) => {
                    &&& i < self.ore_points@.len()
                    &&& self.ore_points@[i as int].id == id
                    &&& find_point(self.ore_points@, id) == Some(self.ore_points@[i as int])
                },
                None => find_point(self.ore_points@, id) is None,
            },
    {
        let mut i: usize = 0;
        while i < self.ore_points.len()
            invariant
                i <= self.ore_points@.len(),
                forall|j: int| 0 <= j < i ==> (#[trigger] self.ore_points@[j]).id != id,
            decreases self.ore_points@.len() - i,
        {
            if self.ore_points[i].id == id {
                proof {
                    lemma_find_point_step(self.ore_points@, id, i as int);
                }
                return Some(i);
            }
            i += 1;
        }
        proof {
            lemma_find_point_none(self.ore_points@, id);
        }
        None
    }
}

/// Shared body of the emoji renderers: the `<emoji>` markup of every
/// category whose bit is set in `mask`, in catalog order.
pub(crate) fn emoji_of_mask(catalog: &Catalog, mask: i32) -> (r: String)
    ensures
        r@ == emoji_seq(catalog.ore_types@, mask),
{
    let types = &catalog.ore_types;
    let mut out = String::new();
    let mut i: usize = 0;
    proof {
        assert(types@.take(0) =~= Seq::<OreType>::empty());
    }
    while i < types.len()
        invariant
            i <= types@.len(),
            out@ == emoji_seq(types@.take(i as int), mask),
        decreases types@.len() - i,
    {
        let ghost prefix = types@.take(i as int);
        if types[i].id & mask != 0 {
            out.append("<");
            out.append(types[i].emoji.as_str());
            out.append(">");
            proof {
                reveal_strlit("<");
                reveal_strlit(">");
                assert("<"@ =~= seq!['<']);
                assert(">"@ =~= seq!['>']);
            }
        }
        proof {
            let next = types@.take(i as int + 1);
            assert(next.drop_last() =~= prefix);
            assert(next.last() == types@[i as int]);
        }
        i += 1;
    }
    proof {
        assert(types@.take(types@.len() as int) =~= types@);
    }
    out
}

impl OrePoint {
    /// All points of the catalog, in id order.
    pub fn iter(catalog: &Catalog) -> (r: &Vec<OrePoint>)
        ensures
            r@ == catalog.ore_points@,
    {
        &catalog.ore_points
    }

    /// The emoji markup of this point's categories.
    pub fn emoji(&self, catalog: &Catalog) -> (r: String)
        ensures
            r@ == emoji_seq(catalog.ore_types@, self.ore_type),
    {
        emoji_of_mask(catalog, self.ore_type)
    }
}

impl OreType {
    /// All categories of the catalog, in id order.
    pub fn iter(catalog: &Catalog) -> (r: &Vec<OreType>)
        ensures
            r@ == catalog.ore_types@,
    {
        &catalog.ore_types
    }
}

} // verus!
