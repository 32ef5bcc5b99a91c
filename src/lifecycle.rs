use crate::geometry::Position;
use crate::scroll::{displacement_of, WorldParameters};
use vstd::prelude::*;

verus! {

/// An entity that takes part in scrolling, under the identifier the host
/// gave it.
#[derive(Clone, Copy, Debug, PartialEq, Eq, Structural)]
pub struct ScrollEntity {
    pub id: u64,
    pub position: Position,
}

/// `e` moved back along the scroll axis by `d`.
pub open spec fn shifted(e: ScrollEntity, d: int) -> ScrollEntity {
    ScrollEntity {
        id: e.id,
        position: Position { x: e.position.x, y: e.position.y, z: (e.position.z - d) as i64 },
    }
}

/// Every entity of `s` moved back by `d`, in order.
pub open spec fn scrolled(s: Seq<ScrollEntity>, d: int) -> Seq<ScrollEntity> {
    s.map_values(|e: ScrollEntity| shifted(e, d))
}

/// Whether an entity has not reached the removal boundary.
pub open spec fn inside(half_extent: i64) -> spec_fn(ScrollEntity) -> bool {
    |e: ScrollEntity| e.position.z < half_extent
}

/// Whether an entity has reached or passed the removal boundary.
pub open spec fn beyond(half_extent: i64) -> spec_fn(ScrollEntity) -> bool {
    |e: ScrollEntity| e.position.z >= half_extent
}

/// The scroll-tagged entities of a world and the parameters that move them.
/// Every live entity lies short of the boundary at `half_extent`.
pub struct ScrollWorld {
    pub params: WorldParameters,
    pub entities: Vec<ScrollEntity>,
}

impl ScrollWorld {
    pub open spec fn wf(&self) -> bool {
        &&& self.params.wf()
        &&& forall|i: int|
            0 <= i < self.entities@.len() ==> #[trigger] self.entities@[i].position.z
                < self.params.half_extent
    }

    /// Whether every coordinate that a tick of `dt` computes fits in an `i64`.
    pub open spec fn advance_fits(&self, dt: u64) -> bool {
        let d = displacement_of(self.params, dt);
        &&& i64::MIN <= d <= i64::MAX
        &&& forall|i: int|
            0 <= i < self.entities@.len() ==> i64::MIN <= #[trigger] self.entities@[i].position.z
                - d <= i64::MAX
    }

    pub fn new(params: WorldParameters) -> (r: ScrollWorld)
        requires
            params.wf(),
        ensures
            r.wf(),
            r.params == params,
            r.entities@ == Seq::<ScrollEntity>::empty(),
    {
        ScrollWorld { params, entities: Vec::new() }
    }

    /// Add an entity. One placed at or beyond the boundary is removed at
    /// once: it is not kept, and the result is `false`.
    pub fn insert(&mut self, id: u64, position: Position) -> (kept: bool)
        requires
            old(self).wf(),
        ensures
            final(self).wf(),
            final(self).params == old(self).params,
            kept == (position.z < old(self).params.half_extent),
            kept ==> final(self).entities@ == old(self).entities@.push(
                ScrollEntity { id, position },
            ),
            !kept ==> final(self).entities@ == old(self).entities@,
    {
        if position.z < self.params.half_extent {
            self.entities.push(ScrollEntity { id, position });
            true
        } else {
            false
        }
    }

    /// Whether a tick of `dt` can be taken without leaving `i64`.
    pub fn can_advance(&self, dt: u64) -> (r: bool)
        ensures
            r == self.advance_fits(dt),
    {
        if !self.params.displacement_fits(dt) {
            return false;
        }
        let d = self.params.displacement(dt);
        let mut i: usize = 0;
        while i < self.entities.len()
            invariant
                0 <= i <= self.entities@.len(),
                d == displacement_of(self.params, dt),
                forall|k: int|
                    0 <= k < i ==> i64::MIN <= #[trigger] self.entities@[k].position.z - d
                        <= i64::MAX,
            decreases self.entities@.len() - i,
        {
            let z = self.entities[i].position.z as i128 - d as i128;
            if z < i64::MIN as i128 || z > i64::MAX as i128 {
                return false;
            }
            i = i + 1;
        }
        true
    }

    /// Move every entity back by this tick's displacement and remove those
    /// that reach or pass the boundary. The survivors keep their order; the
    /// removed ones are returned, moved, in order.
    pub fn advance(&mut self, dt: u64) -> (removed: Vec<ScrollEntity>)
        requires
            old(self).wf(),
            old(self).advance_fits(dt),
        ensures
            final(self).wf(),
            final(self).params == old(self).params,
            final(self).entities@ == scrolled(
                old(self).entities@,
                displacement_of(old(self).params, dt),
            ).filter(inside(old(self).params.half_extent)),
            removed@ == scrolled(old(self).entities@, displacement_of(old(self).params, dt)).filter(
                beyond(old(self).params.half_extent),
            ),
            forall|i: int|
                0 <= i < old(self).entities@.len() ==> (#[trigger] scrolled(
                    old(self).entities@,
                    displacement_of(old(self).params, dt),
                )[i]).position.z == old(self).entities@[i].position.z
                    - old(self).params.scroll_speed * dt,
            dt == 0 ==> final(self).entities@ == old(self).entities@ && removed@.len() == 0,
    {
        let ghost before = self.entities@;
        let half = self.params.half_extent;
        let d = self.params.displacement(dt);
        let ghost moved = scrolled(before, d as int);
        let mut kept: Vec<ScrollEntity> = Vec::new();
        let mut removed: Vec<ScrollEntity> = Vec::new();
        let mut i: usize = 0;
        while i < self.entities.len()
            invariant
                self.entities@ == before,
                self.params.half_extent == half,
                0 <= i <= before.len(),
                moved == scrolled(before, d as int),
                d == displacement_of(self.params, dt),
                forall|k: int|
                    0 <= k < before.len() ==> i64::MIN <= #[trigger] before[k].position.z - d
                        <= i64::MAX,
                kept@ == moved.take(i as int).filter(inside(half)),
                removed@ == moved.take(i as int).filter(beyond(half)),
            decreases before.len() - i,
        {
            let e = self.entities[i];
            let z = e.position.z - d;
            let m = ScrollEntity {
                id: e.id,
                position: Position { x: e.position.x, y: e.position.y, z },
            };
            proof {
                reveal(Seq::filter);
            }
            assert(moved.take(i as int + 1).drop_last() == moved.take(i as int));
            assert(m == moved[i as int]);
            if z >= half {
                removed.push(m);
            } else {
                kept.push(m);
            }
            i = i + 1;
        }
        assert(moved.take(before.len() as int) == moved);
        proof {
            lemma_filter_holds(moved, inside(half));
        }
        if dt == 0 {
            assert(moved == before);
            proof {
                lemma_filter_keeps_all(before, inside(half));
                lemma_filter_drops_all(before, beyond(half));
            }
        }
        self.entities = kept;
        removed
    }
}

/// A tick removes exactly the entities it brings onto or past the boundary:
/// one that ends exactly at `half_extent` (it stood at `half_extent - e` and
/// the tick moved it by `e`) is among the removed, and not among the
/// survivors; one left short of the boundary, by any amount, survives.
pub proof fn lemma_boundary_decides_removal(w: ScrollWorld, dt: u64, i: int)
    requires
        w.wf(),
        w.advance_fits(dt),
        0 <= i < w.entities@.len(),
    ensures
        ({
            let moved = scrolled(w.entities@, displacement_of(w.params, dt));
            let m = moved[i];
            &&& m.position.z == w.entities@[i].position.z - w.params.scroll_speed * dt
            &&& m.position.z >= w.params.half_extent ==> moved.filter(
                beyond(w.params.half_extent),
            ).contains(m) && !moved.filter(inside(w.params.half_extent)).contains(m)
            &&& m.position.z < w.params.half_extent ==> moved.filter(
                inside(w.params.half_extent),
            ).contains(m) && !moved.filter(beyond(w.params.half_extent)).contains(m)
        }),
{
    let moved = scrolled(w.entities@, displacement_of(w.params, dt));
    let half = w.params.half_extent;
    let m = moved[i];
    lemma_filter_holds(moved, inside(half));
    lemma_filter_holds(moved, beyond(half));
    if m.position.z >= half {
        moved.lemma_filter_contains(beyond(half), i);
        if moved.filter(inside(half)).contains(m) {
            let k = choose|k: int|
                0 <= k < moved.filter(inside(half)).len() && moved.filter(inside(half))[k] == m;
            assert(inside(half)(moved.filter(inside(half))[k]));
        }
    } else {
        moved.lemma_filter_contains(inside(half), i);
        if moved.filter(beyond(half)).contains(m) {
            let k = choose|k: int|
                0 <= k < moved.filter(beyond(half)).len() && moved.filter(beyond(half))[k] == m;
            assert(beyond(half)(moved.filter(beyond(half))[k]));
        }
    }
}

proof fn lemma_filter_holds(s: Seq<ScrollEntity>, pred: spec_fn(ScrollEntity) -> bool)
    ensures
        forall|i: int| 0 <= i < s.filter(pred).len() ==> pred(#[trigger] s.filter(pred)[i]),
{
    broadcast use Seq::lemma_filter_pred;

}

proof fn lemma_filter_keeps_all(s: Seq<ScrollEntity>, pred: spec_fn(ScrollEntity) -> bool)
    requires
        forall|i: int| 0 <= i < s.len() ==> pred(#[trigger] s[i]),
    ensures
        s.filter(pred) == s,
    decreases s.len(),
{
    reveal(Seq::filter);
    if s.len() > 0 {
        lemma_filter_keeps_all(s.drop_last(), pred);
        assert(s.drop_last().push(s.last()) == s);
    }
}

proof fn lemma_filter_drops_all(s: Seq<ScrollEntity>, pred: spec_fn(ScrollEntity) -> bool)
    requires
        forall|i: int| 0 <= i < s.len() ==> !pred(#[trigger] s[i]),
    ensures
        s.filter(pred).len() == 0,
    decreases s.len(),
{
    reveal(Seq::filter);
    if s.len() > 0 {
        lemma_filter_drops_all(s.drop_last(), pred);
    }
}

} // verus!
