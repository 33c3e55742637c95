use vstd::prelude::*;
use crate::hex::{Hex, in_bounds, hex_distance, reachable, MAX_RANGE, COORD_LIMIT};

verus! {

/// The board registry: the set of valid hex coordinates of the playable grid.
pub struct HexMap {
    pub hexes: Vec<Hex>,
}

impl View for HexMap {
    type V = Set<Hex>;

    open spec fn view(&self) -> Set<Hex> {
        self.hexes@.to_set()
    }
}

/// Relies on hexx::shapes::hexagon: every hex within `radius` steps of
/// `center`, each once.
#[verifier::external_body]
fn hexagon(center: Hex, radius: u32) -> (r: Vec<Hex>)
    requires
        in_bounds(center),
        radius <= MAX_RANGE,
    ensures
        r@.no_duplicates(),
        forall|h: Hex| r@.contains(h) <==> hex_distance(center, h) <= radius,
{
    hexx::shapes::hexagon(hexx::Hex::new(center.x, center.y), radius).map(
        |h| Hex { x: h.x, y: h.y },
    ).collect()
}

impl HexMap {
    pub open spec fn wf(&self) -> bool {
        &&& self.hexes@.no_duplicates()
        &&& forall|i: int| 0 <= i < self.hexes@.len() ==> in_bounds(#[trigger] self.hexes@[i])
    }

    /// An empty registry.
    pub fn new() -> (r: HexMap)
        ensures
            r.wf(),
            r@ == Set::<Hex>::empty(),
    {
        let r = HexMap { hexes: Vec::new() };
        assert(r@ =~= Set::<Hex>::empty());
        r
    }

    /// The hexagonal board of the given radius around `center`.
    pub fn hexagon(center: Hex, radius: u32) -> (r: HexMap)
        requires
            in_bounds(center),
            -(COORD_LIMIT - MAX_RANGE) <= center.x <= COORD_LIMIT - MAX_RANGE,
            -(COORD_LIMIT - MAX_RANGE) <= center.y <= COORD_LIMIT - MAX_RANGE,
            radius <= MAX_RANGE,
        ensures
            r.wf(),
            r@ == reachable(center, radius as int),
    {
        let hexes = hexagon(center, radius);
        let r = HexMap { hexes };
        assert forall|i: int| 0 <= i < r.hexes@.len() implies in_bounds(#[trigger] r.hexes@[i]) by {
            assert(r.hexes@.contains(r.hexes@[i]));
        }
        assert(r@ =~= reachable(center, radius as int));
        r
    }

    /// Whether `h` belongs to the board.
    pub fn contains(&self, h: Hex) -> (r: bool)
        ensures
            r == self@.contains(h),
    {
        let mut i: usize = 0;
        while i < self.hexes.len()
            invariant
                i <= self.hexes@.len(),
                forall|j: int| 0 <= j < i ==> self.hexes@[j] != h,
            decreases self.hexes@.len() - i,
        {
            if self.hexes[i] == h {
                assert(self.hexes@.contains(h));
                return true;
            }
            i = i + 1;
        }
        false
    }

    /// Adds `h` to the board; a hex already there is kept once.
    pub fn insert(&mut self, h: Hex)
        requires
            old(self).wf(),
            in_bounds(h),
        ensures
            final(self).wf(),
            final(self)@ == old(self)@.insert(h),
    {
        if !self.contains(h) {
            self.hexes.push(h);
            assert forall|x: Hex| #[trigger] self@.contains(x) <==> old(self)@.insert(h).contains(x) by {
                if old(self)@.contains(x) {
                    let k = choose|k: int| 0 <= k < old(self).hexes@.len() && old(self).hexes@[k] == x;
                    assert(self.hexes@[k] == x);
                }
                if x == h {
                    assert(self.hexes@[self.hexes@.len() - 1] == h);
                }
                if self@.contains(x) {
                    let k = choose|k: int| 0 <= k < self.hexes@.len() && self.hexes@[k] == x;
                    if k < old(self).hexes@.len() {
                        assert(old(self).hexes@[k] == x);
                    }
                }
            }
        }
        assert(self@ =~= old(self)@.insert(h));
    }

    /// Number of hexes on the board.
    pub fn len(&self) -> (r: usize)
        requires
            self.wf(),
        ensures
            r == self@.len(),
    {
        proof {
            self.hexes@.unique_seq_to_set();
        }
        self.hexes.len()
    }
}

} // verus!
