use vstd::prelude::*;

verus! {

/// Largest absolute value of a coordinate that the library handles, so that
/// every neighbour and every hex within a movement budget fits in `i32`.
pub const COORD_LIMIT: i32 = 1_000_000;

/// Largest movement budget (and board radius) that the library handles.
pub const MAX_RANGE: u32 = 1000;

/// An axial hex coordinate.
#[derive(Clone, Copy, Debug, PartialEq, Eq, Structural, Hash)]
pub struct Hex {
    pub x: i32,
    pub y: i32,
}

/// One of the six neighbour directions of a hex.
#[derive(Clone, Copy, Debug, PartialEq, Eq, Structural, Hash)]
pub enum Direction {
    TopRight,
    Top,
    TopLeft,
    BottomLeft,
    Bottom,
    BottomRight,
}

pub open spec fn in_bounds(h: Hex) -> bool {
    -COORD_LIMIT <= h.x <= COORD_LIMIT && -COORD_LIMIT <= h.y <= COORD_LIMIT
}

/// Coordinates of an origin from which every hex within `MAX_RANGE` steps
/// stays in bounds.
pub open spec fn inner(h: Hex) -> bool {
    -(COORD_LIMIT - MAX_RANGE) <= h.x <= COORD_LIMIT - MAX_RANGE
        && -(COORD_LIMIT - MAX_RANGE) <= h.y <= COORD_LIMIT - MAX_RANGE
}

/// Each step changes the distance from a fixed hex by at most one.
pub proof fn lemma_step_distance(a: Hex, b: Hex, c: Hex)
    requires
        direction_between(b, c).is_some(),
    ensures
        hex_distance(a, c) <= hex_distance(a, b) + 1,
{
}

/// Along a chain of neighbours, the `i`-th hex is at most `i` steps from the
/// first.
pub proof fn lemma_chain_distance(p: Seq<Hex>)
    requires
        is_chain(p),
        p.len() >= 1,
    ensures
        forall|i: int| 0 <= i < p.len() ==> hex_distance(p[0], #[trigger] p[i]) <= i,
    decreases p.len(),
{
    if p.len() > 1 {
        let q = p.drop_last();
        assert forall|i: int| 0 <= i < q.len() - 1 implies #[trigger] direction_between(q[i], q[i + 1]).is_some() by {
            assert(direction_between(p[i], p[i + 1]).is_some());
        }
        lemma_chain_distance(q);
        let k = p.len() - 1;
        assert(direction_between(p[k - 1], p[(k - 1) + 1]).is_some());
        assert(hex_distance(p[0], q[k - 1]) <= k - 1);
        lemma_step_distance(p[0], p[k - 1], p[k]);
        assert forall|i: int| 0 <= i < p.len() implies hex_distance(p[0], #[trigger] p[i]) <= i by {
            if i < k {
                assert(q[i] == p[i]);
            }
        }
    } else {
        lemma_distance_zero(p[0], p[0]);
    }
}

/// A hex within `MAX_RANGE` steps of an inner hex is in bounds.
pub proof fn lemma_near_inner(a: Hex, b: Hex)
    requires
        inner(a),
        hex_distance(a, b) <= MAX_RANGE,
    ensures
        in_bounds(b),
{
}

pub open spec fn abs(v: int) -> int {
    if v < 0 { -v } else { v }
}

/// Number of steps between two hexes: the largest of the three cube
/// coordinate differences.
pub open spec fn hex_distance(a: Hex, b: Hex) -> int {
    let dx = abs(b.x - a.x);
    let dy = abs(b.y - a.y);
    let dz = abs((b.x - a.x) + (b.y - a.y));
    if dx >= dy && dx >= dz {
        dx
    } else if dy >= dz {
        dy
    } else {
        dz
    }
}

/// The direction in which `b` neighbours `a`, if it does.
pub open spec fn direction_between(a: Hex, b: Hex) -> Option<Direction> {
    let dx = b.x - a.x;
    let dy = b.y - a.y;
    if dx == 1 && dy == -1 {
        Some(Direction::TopRight)
    } else if dx == 0 && dy == -1 {
        Some(Direction::Top)
    } else if dx == -1 && dy == 0 {
        Some(Direction::TopLeft)
    } else if dx == -1 && dy == 1 {
        Some(Direction::BottomLeft)
    } else if dx == 0 && dy == 1 {
        Some(Direction::Bottom)
    } else if dx == 1 && dy == 0 {
        Some(Direction::BottomRight)
    } else {
        None
    }
}

/// The hexes at most `budget` steps from `origin`, `origin` included.
pub open spec fn reachable(origin: Hex, budget: int) -> Set<Hex> {
    Set::new(|h: Hex| hex_distance(origin, h) <= budget)
}

/// Consecutive hexes of `p` are neighbours.
pub open spec fn is_chain(p: Seq<Hex>) -> bool {
    forall|i: int| 0 <= i < p.len() - 1 ==> #[trigger] direction_between(p[i], p[i + 1]).is_some()
}

/// A hex is zero steps from itself, and from nothing else.
pub proof fn lemma_distance_zero(a: Hex, b: Hex)
    ensures
        hex_distance(a, b) >= 0,
        hex_distance(a, b) == 0 <==> a == b,
{
}

/// Relies on hexx::Hex::neighbor_direction: the direction `d` among the six
/// for which `a.neighbor(d) == b`, or `None` where `b` is no neighbour of `a`.
#[verifier::external_body]
pub(crate) fn neighbor_direction(a: Hex, b: Hex) -> (r: Option<Direction>)
    requires
        in_bounds(a),
        in_bounds(b),
    ensures
        r == direction_between(a, b),
{
    let found = hexx::Hex::new(a.x, a.y).neighbor_direction(hexx::Hex::new(b.x, b.y));
    match found {
        Some(hexx::Direction::TopRight) => Some(Direction::TopRight),
        Some(hexx::Direction::Top) => Some(Direction::Top),
        Some(hexx::Direction::TopLeft) => Some(Direction::TopLeft),
        Some(hexx::Direction::BottomLeft) => Some(Direction::BottomLeft),
        Some(hexx::Direction::Bottom) => Some(Direction::Bottom),
        Some(hexx::Direction::BottomRight) => Some(Direction::BottomRight),
        None => None,
    }
}

/// Whether a sprite moving in direction `d` is drawn mirrored: `Some(true)`
/// when it faces left, `Some(false)` when it faces right, `None` for the two
/// vertical directions, which keep the current facing.
pub fn mirror_for(d: Direction) -> (r: Option<bool>)
    ensures
        r == mirror_for_spec(d),
{
    match d {
        Direction::TopRight => Some(false),
        Direction::Top => None,
        Direction::TopLeft => Some(true),
        Direction::BottomLeft => Some(true),
        Direction::Bottom => None,
        Direction::BottomRight => Some(false),
    }
}

/// The horizontal mirroring of a sprite after its facing changed to `d`:
/// unchanged for the vertical directions.
pub fn flipped_after_turn(current: bool, d: Direction) -> (r: bool)
    ensures
        r == (match mirror_for_spec(d) {
            Some(m) => m,
            None => current,
        }),
{
    match mirror_for(d) {
        Some(m) => m,
        None => current,
    }
}

pub open spec fn mirror_for_spec(d: Direction) -> Option<bool> {
    match d {
        Direction::TopRight | Direction::BottomRight => Some(false),
        Direction::TopLeft | Direction::BottomLeft => Some(true),
        Direction::Top | Direction::Bottom => None::<bool>,
    }
}

} // verus!
