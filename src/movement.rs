use vstd::prelude::*;
use crate::hex::{
    Hex, in_bounds, inner, hex_distance, reachable, is_chain, lemma_distance_zero, MAX_RANGE,
};

verus! {

/// Extra cost of entering a hex, on top of the one step that every move
/// costs: the board has no terrain, so every hex can be entered at no extra
/// cost.
pub fn extra_step_cost(x: i32, y: i32) -> (r: Option<u32>)
    ensures
        r == Some(0u32),
{
    Some(0)
}

/// Relies on hexx::algorithms::field_of_movement, called with
/// `extra_step_cost`: each ring of radius 1 to `budget` around `origin` is
/// reached at a cost equal to its radius, so the result holds every hex 1 to
/// `budget` steps away, and not `origin` itself. The set is handed out in
/// whatever order it iterates in, each hex once.
#[verifier::external_body]
fn field_without_origin(origin: Hex, budget: u32) -> (r: Vec<Hex>)
    requires
        inner(origin),
        budget <= MAX_RANGE,
    ensures
        r@.no_duplicates(),
        forall|h: Hex| r@.contains(h) <==> 1 <= hex_distance(origin, h) <= budget,
{
    hexx::algorithms::field_of_movement(
        hexx::Hex::new(origin.x, origin.y),
        budget,
        |h| extra_step_cost(h.x, h.y),
    ).into_iter().map(|h| Hex { x: h.x, y: h.y }).collect()
}

/// The field of movement: every hex reachable from `origin` within `budget`
/// uniform steps, `origin` included, each once.
pub fn field_of_movement(origin: Hex, budget: u32) -> (r: Vec<Hex>)
    requires
        inner(origin),
        budget <= MAX_RANGE,
    ensures
        r@.no_duplicates(),
        r@.to_set() == reachable(origin, budget as int),
        budget == 0 ==> r@.to_set() == set![origin],
{
    let mut r = field_without_origin(origin, budget);
    let ghost s = r@;
    proof {
        lemma_distance_zero(origin, origin);
    }
    r.push(origin);
    assert(r@ == s.push(origin));
    assert(r@.no_duplicates()) by {
        assert forall|i: int, j: int| 0 <= i < j < r@.len() implies r@[i] != r@[j] by {
            if j == r@.len() - 1 {
                assert(s.contains(s[i]));
            }
        }
    }
    assert forall|h: Hex| #[trigger] r@.to_set().contains(h) <==> reachable(origin, budget as int).contains(h) by {
        lemma_distance_zero(origin, h);
        if r@.contains(h) {
            let k = choose|k: int| 0 <= k < r@.len() && r@[k] == h;
            if k < s.len() {
                assert(s[k] == h);
                assert(s.contains(h));
            }
        }
        if hex_distance(origin, h) <= budget {
            if h == origin {
                assert(r@[s.len() as int] == h);
            } else {
                assert(s.contains(h));
                let k = choose|k: int| 0 <= k < s.len() && s[k] == h;
                assert(r@[k] == h);
            }
        }
    }
    assert(r@.to_set() =~= reachable(origin, budget as int));
    if budget == 0 {
        assert forall|h: Hex| reachable(origin, 0).contains(h) <==> set![origin].contains(h) by {
            lemma_distance_zero(origin, h);
        }
        assert(reachable(origin, 0) =~= set![origin]);
    }
    r
}

/// A budget of zero reaches exactly the origin.
pub proof fn lemma_field_zero_budget(origin: Hex)
    ensures
        reachable(origin, 0) == set![origin],
{
    assert forall|h: Hex| reachable(origin, 0).contains(h) <==> set![origin].contains(h) by {
        lemma_distance_zero(origin, h);
    }
    assert(reachable(origin, 0) =~= set![origin]);
}

/// The field of movement grows with the budget: what a budget of `n - 1`
/// reaches, a budget of `n` reaches too.
pub proof fn lemma_field_monotonic(origin: Hex, n: int)
    requires
        n >= 1,
    ensures
        reachable(origin, n - 1).subset_of(reachable(origin, n)),
{
}

/// A walk from `from` to `to` through neighbouring hexes.
pub open spec fn is_walk(p: Seq<Hex>, from: Hex, to: Hex) -> bool {
    &&& p.len() >= 1
    &&& p[0] == from
    &&& p[p.len() - 1] == to
    &&& is_chain(p)
}

/// Relies on hexx::algorithms::a_star, called with `extra_step_cost`: with no
/// extra cost anywhere the search expands, from each hex, a neighbour one step
/// closer to `to`, so it always finds a path, from `from` to `to` through
/// neighbouring hexes, one hex longer than their distance.
#[verifier::external_body]
fn a_star(from: Hex, to: Hex) -> (r: Option<Vec<Hex>>)
    requires
        in_bounds(from),
        in_bounds(to),
    ensures
        r.is_some(),
        r.is_some() ==> is_walk(r.unwrap()@, from, to),
        r.is_some() ==> r.unwrap()@.len() == hex_distance(from, to) + 1,
{
    hexx::algorithms::a_star(
        hexx::Hex::new(from.x, from.y),
        hexx::Hex::new(to.x, to.y),
        |h| extra_step_cost(h.x, h.y),
    ).map(|p| p.into_iter().map(|h| Hex { x: h.x, y: h.y }).collect())
}

/// A shortest path from `from` to `to`, both ends included.
pub fn shortest_path(from: Hex, to: Hex) -> (r: Option<Vec<Hex>>)
    requires
        in_bounds(from),
        in_bounds(to),
    ensures
        r matches Some(p) && is_walk(p@, from, to) && p@.len() == hex_distance(from, to) + 1,
{
    a_star(from, to)
}

} // verus!
