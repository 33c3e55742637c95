use vstd::prelude::*;
use crate::hex::{
    Hex, Direction, in_bounds, inner, reachable, hex_distance, direction_between, is_chain,
    neighbor_direction, MAX_RANGE,
};
use crate::board::HexMap;
use crate::input::{ClickMemory, ClickSignal, HoverChange, HoverMemory};
use crate::movement::{field_of_movement, shortest_path, is_walk};
use crate::states::PlayerState;

verus! {

/// A unit in transit: the waypoint it heads for and the direction it faces.
#[derive(Clone, Copy, Debug, PartialEq, Eq, Structural)]
pub struct Moving {
    pub towards: Hex,
    pub direction: Direction,
}

/// A unit on the board.
pub struct Unit {
    pub health: i32,
    /// The hex the unit occupies.
    pub loc: Hex,
    /// Movement budget.
    pub move_range: u32,
    /// Present while the unit moves; absent together with `path`.
    pub moving: Option<Moving>,
    /// Waypoints still to go, the next one first.
    pub path: Vec<Hex>,
}

pub ghost struct UnitView {
    pub loc: Hex,
    pub move_range: u32,
    pub moving: Option<Moving>,
    pub path: Seq<Hex>,
}

impl View for Unit {
    type V = UnitView;

    open spec fn view(&self) -> UnitView {
        UnitView { loc: self.loc, move_range: self.move_range, moving: self.moving, path: self.path@ }
    }
}

/// The hex a unit ends on once its path is used up.
pub open spec fn destination(u: UnitView) -> Hex {
    if u.path.len() > 0 {
        u.path.last()
    } else {
        u.loc
    }
}

/// Well-formed motion state: no path without `Moving`; the unit's hex and its
/// path form a chain of neighbours; the unit heads for its own hex or for the
/// first waypoint.
pub open spec fn motion_ok(u: UnitView) -> bool {
    &&& in_bounds(u.loc)
    &&& u.move_range <= MAX_RANGE
    &&& forall|i: int| 0 <= i < u.path.len() ==> in_bounds(#[trigger] u.path[i])
    &&& is_chain(seq![u.loc] + u.path)
    &&& (u.moving matches Some(m) ==> m.towards == u.loc || (u.path.len() > 0 && m.towards == u.path[0]))
    &&& (u.moving.is_none() ==> u.path.len() == 0)
}

/// The unit after it reached the waypoint it headed for: it takes the next
/// waypoint, if any, as its hex and heads there; with none left, it stops.
pub open spec fn arrive(u: UnitView) -> UnitView {
    match u.moving {
        None => u,
        Some(m) => if u.path.len() > 0 {
            match direction_between(u.loc, u.path[0]) {
                Some(d) => UnitView {
                    loc: u.path[0],
                    moving: Some(Moving { towards: u.path[0], direction: d }),
                    path: u.path.drop_first(),
                    ..u
                },
                None => UnitView { moving: None, path: Seq::empty(), ..u },
            }
        } else {
            UnitView { moving: None, ..u }
        },
    }
}

pub open spec fn arrivals(u: UnitView, n: nat) -> UnitView
    decreases n,
{
    if n == 0 {
        u
    } else {
        arrivals(arrive(u), (n - 1) as nat)
    }
}

/// A moving unit comes to rest on its destination after one arrival per
/// waypoint left and a last one at its final hex.
pub proof fn lemma_move_completes(u: UnitView)
    requires
        motion_ok(u),
    ensures
        arrivals(u, u.path.len() + 1).moving.is_none(),
        arrivals(u, u.path.len() + 1).path.len() == 0,
        arrivals(u, u.path.len() + 1).loc == destination(u),
    decreases u.path.len(),
{
    if u.path.len() > 0 {
        assert((seq![u.loc] + u.path)[0] == u.loc);
        assert((seq![u.loc] + u.path)[1] == u.path[0]);
        assert(direction_between((seq![u.loc] + u.path)[0], (seq![u.loc] + u.path)[1]).is_some());
        lemma_arrive_keeps_motion_ok(u);
        let v = arrive(u);
        assert(v.path.len() + 1 == u.path.len());
        lemma_move_completes(v);
        assert(arrivals(u, u.path.len() + 1) == arrivals(v, v.path.len() + 1));
    } else {
        assert(arrivals(arrive(u), 0) == arrive(u));
    }
}

/// Reaching a waypoint keeps the motion state well formed, and while
/// waypoints are left it keeps the destination and uses up one of them.
pub proof fn lemma_arrive_keeps_motion_ok(u: UnitView)
    requires
        motion_ok(u),
    ensures
        motion_ok(arrive(u)),
        u.moving.is_some() && u.path.len() > 0 ==> destination(arrive(u)) == destination(u)
            && arrive(u).moving.is_some() && arrive(u).path.len() + 1 == u.path.len(),
{
    if u.moving.is_some() && u.path.len() > 0 {
        let c = seq![u.loc] + u.path;
        assert(c[0] == u.loc && c[1] == u.path[0]);
        assert(direction_between(c[0], c[1]).is_some());
        let v = arrive(u);
        let c2 = seq![v.loc] + v.path;
        assert forall|i: int| 0 <= i < c2.len() - 1 implies #[trigger] direction_between(c2[i], c2[i + 1]).is_some() by {
            assert(c2[i] == c[i + 1]);
            assert(c2[i + 1] == c[i + 2]);
            assert(direction_between(c[i + 1], c[(i + 1) + 1]).is_some());
        }
        assert forall|i: int| 0 <= i < v.path.len() implies in_bounds(#[trigger] v.path[i]) by {
            assert(v.path[i] == u.path[i + 1]);
        }
    } else if u.moving.is_some() {
        let v = arrive(u);
        assert(seq![v.loc] + v.path =~= seq![v.loc]);
    }
}


impl Unit {
    /// A unit at rest on `loc` with movement budget `move_range`.
    pub fn new(health: i32, loc: Hex, move_range: u32) -> (r: Unit)
        requires
            in_bounds(loc),
            move_range <= MAX_RANGE,
        ensures
            r@ == (UnitView { loc, move_range, moving: None, path: Seq::empty() }),
            r.health == health,
            motion_ok(r@),
    {
        let r = Unit { health, loc, move_range, moving: None, path: Vec::new() };
        assert(seq![loc] + r.path@ =~= seq![loc]);
        r
    }
}

/// What a click on the board did.
#[derive(Clone, Copy, Debug, PartialEq, Eq, Structural)]
pub enum ClickOutcome {
    /// Off the board, a repeated click with nothing to confirm while idle, or
    /// a click while a unit moves.
    Ignored,
    /// The clicked tile became the selected tile.
    TileSelected(Hex),
    /// The unit with this index was selected.
    UnitSelected(usize),
    /// The clicked tile became the move target.
    MoveTargetSet(Hex),
    /// The click left the activation range; the selection was dropped.
    ClickedOutsideActivationRange(Hex),
    /// A second click on the same hex that confirmed nothing.
    HexDoubleClicked(Hex),
    /// The move of `unit` from `from` to `to` was confirmed and the unit set
    /// off.
    MoveTargetConfirmed { unit: usize, from: Hex, to: Hex },
}

/// What reaching a waypoint did to a unit.
#[derive(Clone, Copy, Debug, PartialEq, Eq, Structural)]
pub enum Arrival {
    /// The unit was not moving.
    NotMoving,
    /// The unit heads for its next waypoint.
    Advanced(Moving),
    /// The unit stopped on this hex.
    Finished(Hex),
}

/// The whole interaction state: board, units, mode and per-tile flags.
pub struct Game {
    pub board: HexMap,
    pub units: Vec<Unit>,
    pub mode: PlayerState,
    pub selected_unit: Option<usize>,
    /// The tile that holds `Selected`.
    pub selected_tile: Option<Hex>,
    /// The tile designated as pending destination.
    pub move_target: Option<Hex>,
    /// The tiles that hold `Activated`, each once.
    pub activated: Vec<Hex>,
    pub hover: HoverMemory,
    pub clicks: ClickMemory,
}

pub ghost struct GameView {
    pub board: Set<Hex>,
    pub units: Seq<UnitView>,
    pub mode: PlayerState,
    pub selected_unit: Option<usize>,
    pub selected_tile: Option<Hex>,
    pub move_target: Option<Hex>,
    pub activated: Set<Hex>,
    pub hovered: Option<Hex>,
    pub last_clicked: Option<Hex>,
}

impl View for Game {
    type V = GameView;

    open spec fn view(&self) -> GameView {
        GameView {
            board: self.board@,
            units: self.units@.map_values(|u: Unit| u@),
            mode: self.mode,
            selected_unit: self.selected_unit,
            selected_tile: self.selected_tile,
            move_target: self.move_target,
            activated: self.activated@.to_set(),
            hovered: self.hover.last,
            last_clicked: self.clicks.last,
        }
    }
}

/// The activation range of unit `i`: its field of movement on the board.
pub open spec fn activation(g: GameView, i: int) -> Set<Hex> {
    reachable(g.units[i].loc, g.units[i].move_range as int).intersect(g.board)
}

/// While unit `i` is selected, a tile is flagged `Activated` exactly when it
/// is on the board and at most the unit's movement budget away from it.
pub proof fn lemma_activation_exact(g: GameView, i: int, h: Hex)
    ensures
        activation(g, i).contains(h) <==> (g.board.contains(h)
            && hex_distance(g.units[i].loc, h) <= g.units[i].move_range),
{
}

/// `i` is the first unit standing on `h`.
pub open spec fn first_unit_at(units: Seq<UnitView>, h: Hex, i: int) -> bool {
    &&& 0 <= i < units.len()
    &&& units[i].loc == h
    &&& forall|j: int| 0 <= j < i ==> (#[trigger] units[j]).loc != h
}

pub open spec fn no_unit_at(units: Seq<UnitView>, h: Hex) -> bool {
    forall|j: int| 0 <= j < units.len() ==> (#[trigger] units[j]).loc != h
}

/// The state after leaving `UnitSelected`: no selected unit, tile, move
/// target or activated tile, and the click memory reset.
pub open spec fn deselected(g: GameView) -> GameView {
    GameView {
        mode: PlayerState::Idle,
        selected_unit: None,
        selected_tile: None,
        move_target: None,
        activated: Set::empty(),
        last_clicked: None,
        ..g
    }
}

/// A unit, `u` before and `v` after, has just set off from `from` for `to`:
/// it keeps its hex, heads for the first waypoint of a shortest path and
/// faces it.
pub open spec fn set_off(u: UnitView, v: UnitView, from: Hex, to: Hex) -> bool {
    &&& v.loc == u.loc
    &&& v.loc == from
    &&& v.move_range == u.move_range
    &&& is_walk(seq![from] + v.path, from, to)
    &&& v.path.len() == hex_distance(from, to)
    &&& v.path.len() >= 1
    &&& v.moving == Some(Moving { towards: v.path[0], direction: direction_between(from, v.path[0]).unwrap() })
    &&& destination(v) == to
}

/// A click on the board hex `h` while idle.
pub open spec fn idle_click(g: GameView, h: Hex, r: ClickOutcome, n: GameView) -> bool {
    if g.last_clicked == Some(h) {
        r == ClickOutcome::Ignored && n == g
    } else {
        let g1 = GameView { last_clicked: Some(h), selected_tile: Some(h), ..g };
        if no_unit_at(g.units, h) {
            r == ClickOutcome::TileSelected(h) && n == g1
        } else {
            r matches ClickOutcome::UnitSelected(i) && first_unit_at(g.units, h, i as int) && n == (GameView {
                mode: PlayerState::UnitSelected,
                selected_unit: Some(i),
                activated: activation(g, i as int),
                ..g1
            })
        }
    }
}


/// A click on the board hex `h` while unit `i` is selected.
pub open spec fn selected_click(g: GameView, h: Hex, r: ClickOutcome, n: GameView) -> bool {
    let i = g.selected_unit.unwrap();
    let loc = g.units[i as int].loc;
    if g.last_clicked != Some(h) {
        if !g.activated.contains(h) {
            r == ClickOutcome::ClickedOutsideActivationRange(h) && n == deselected(g)
        } else if h != loc {
            r == ClickOutcome::MoveTargetSet(h) && n == (GameView {
                last_clicked: Some(h),
                selected_tile: Some(h),
                move_target: Some(h),
                ..g
            })
        } else {
            r == ClickOutcome::TileSelected(h) && n == (GameView {
                last_clicked: Some(h),
                selected_tile: Some(h),
                ..g
            })
        }
    } else if g.move_target == Some(h) && h != loc {
        r == (ClickOutcome::MoveTargetConfirmed { unit: i, from: loc, to: h })
            && n == (GameView { mode: PlayerState::UnitMoving, units: n.units, ..deselected(g) })
            && n.units.len() == g.units.len()
            && (forall|j: int| 0 <= j < g.units.len() && j != i ==> n.units[j] == g.units[j])
            && set_off(g.units[i as int], n.units[i as int], loc, h)
    } else {
        r == ClickOutcome::HexDoubleClicked(h) && n == g
    }
}

impl Game {
    pub open spec fn wf(&self) -> bool {
        &&& self.board.wf()
        &&& forall|h: Hex| #[trigger] self.board@.contains(h) ==> inner(h)
        &&& forall|i: int| 0 <= i < self.units@.len() ==> motion_ok(#[trigger] self.units@[i]@)
        &&& self.activated@.no_duplicates()
        &&& (self.mode != PlayerState::UnitMoving ==> forall|j: int| 0 <= j < self.units@.len() ==> (#[trigger] self.units@[j]).moving.is_none())
        &&& forall|j: int, k: int| 0 <= j < self.units@.len() && 0 <= k < self.units@.len()
            && (#[trigger] self.units@[j]).moving.is_some() && (#[trigger] self.units@[k]).moving.is_some() ==> j == k
        &&& (self.selected_tile matches Some(h) ==> self.board@.contains(h))
        &&& (self.hover.last matches Some(h) ==> self.board@.contains(h))
        &&& (self.clicks.last matches Some(h) ==> self.board@.contains(h))
        &&& match self.mode {
            PlayerState::UnitSelected => {
                &&& self.selected_unit matches Some(i)
                &&& i < self.units@.len()
                &&& self.board@.contains(self.units@[i as int].loc)
                &&& self@.activated == activation(self@, i as int)
                &&& (self.move_target matches Some(t) ==> self@.activated.contains(t) && t != self.units@[i as int].loc)
            },
            _ => {
                &&& self.selected_unit.is_none()
                &&& self.activated@.len() == 0
                &&& self.move_target.is_none()
            },
        }
    }

    /// A game on `board` with `units` at rest, nothing selected, idle.
    pub fn new(board: HexMap, units: Vec<Unit>) -> (r: Game)
        requires
            board.wf(),
            forall|h: Hex| #[trigger] board@.contains(h) ==> inner(h),
            forall|i: int| 0 <= i < units@.len() ==> motion_ok(#[trigger] units@[i]@),
            forall|i: int| 0 <= i < units@.len() ==> (#[trigger] units@[i]).moving.is_none(),
        ensures
            r.wf(),
            r@ == (GameView {
                board: board@,
                units: units@.map_values(|u: Unit| u@),
                mode: PlayerState::Idle,
                selected_unit: None,
                selected_tile: None,
                move_target: None,
                activated: Set::empty(),
                hovered: None,
                last_clicked: None,
            }),
    {
        let r = Game {
            board,
            units,
            mode: PlayerState::Idle,
            selected_unit: None,
            selected_tile: None,
            move_target: None,
            activated: Vec::new(),
            hover: HoverMemory::new(),
            clicks: ClickMemory::new(),
        };
        assert(r.activated@.to_set() =~= Set::empty());
        r
    }

    /// The first unit standing on `h`, if any.
    pub fn unit_at(&self, h: Hex) -> (r: Option<usize>)
        ensures
            r matches Some(i) ==> first_unit_at(self@.units, h, i as int),
            r.is_none() ==> no_unit_at(self@.units, h),
    {
        let mut i: usize = 0;
        while i < self.units.len()
            invariant
                i <= self.units@.len(),
                forall|j: int| 0 <= j < i ==> (#[trigger] self@.units[j]).loc != h,
            decreases self.units@.len() - i,
        {
            if self.units[i].loc == h {
                return Some(i);
            }
            i = i + 1;
        }
        None
    }

    /// Whether the tile on `h` holds `Activated`.
    pub fn is_activated(&self, h: Hex) -> (r: bool)
        ensures
            r == self@.activated.contains(h),
    {
        let mut i: usize = 0;
        while i < self.activated.len()
            invariant
                i <= self.activated@.len(),
                forall|j: int| 0 <= j < i ==> self.activated@[j] != h,
            decreases self.activated@.len() - i,
        {
            if self.activated[i] == h {
                assert(self.activated@.contains(h));
                return true;
            }
            i = i + 1;
        }
        false
    }
}

/// The tiles to flag `Activated` for a unit on `loc` with budget `range`:
/// its field of movement, kept to the hexes on the board.
pub fn activated_tiles(board: &HexMap, loc: Hex, range: u32) -> (r: Vec<Hex>)
    requires
        inner(loc),
        range <= MAX_RANGE,
    ensures
        r@.no_duplicates(),
        r@.to_set() == reachable(loc, range as int).intersect(board@),
{
    let field = field_of_movement(loc, range);
    let mut r: Vec<Hex> = Vec::new();
    let mut k: usize = 0;
    while k < field.len()
        invariant
            k <= field@.len(),
            field@.no_duplicates(),
            r@.no_duplicates(),
            forall|x: Hex| #[trigger] r@.contains(x) <==> (field@.subrange(0, k as int).contains(x) && board@.contains(x)),
        decreases field@.len() - k,
    {
        let h = field[k];
        let ghost old_r = r@;
        let ghost pre = field@.subrange(0, k as int);
        let ghost post = field@.subrange(0, k + 1);
        assert(post == pre.push(h));
        if board.contains(h) {
            assert(!pre.contains(h)) by {
                if pre.contains(h) {
                    let j = choose|j: int| 0 <= j < k && pre[j] == h;
                    assert(field@[j] == field@[k as int]);
                }
            }
            assert(!old_r.contains(h));
            r.push(h);
            assert(r@ == old_r.push(h));
            assert forall|x: Hex| #[trigger] r@.contains(x) <==> (post.contains(x) && board@.contains(x)) by {
                if x == h {
                    assert(r@[old_r.len() as int] == x);
                    assert(post[k as int] == x);
                } else {
                    if r@.contains(x) {
                        let jr = choose|jr: int| 0 <= jr < r@.len() && r@[jr] == x;
                        assert(old_r[jr] == x);
                        assert(old_r.contains(x));
                        let j = choose|j: int| 0 <= j < k && pre[j] == x;
                        assert(post[j] == x);
                    }
                    if post.contains(x) {
                        let j = choose|j: int| 0 <= j < k + 1 && post[j] == x;
                        assert(pre[j] == x);
                    }
                    if old_r.contains(x) {
                        let jr = choose|jr: int| 0 <= jr < old_r.len() && old_r[jr] == x;
                        assert(r@[jr] == x);
                    }
                }
            }
        } else {
            assert forall|x: Hex| #[trigger] r@.contains(x) <==> (post.contains(x) && board@.contains(x)) by {
                if post.contains(x) && x != h {
                    let j = choose|j: int| 0 <= j < k + 1 && post[j] == x;
                    assert(pre[j] == x);
                }
                if pre.contains(x) {
                    let j = choose|j: int| 0 <= j < k && pre[j] == x;
                    assert(post[j] == x);
                }
            }
        }
        k = k + 1;
    }
    assert(field@.subrange(0, k as int) == field@);
    assert forall|h: Hex| #[trigger] r@.to_set().contains(h) <==> reachable(loc, range as int).intersect(board@).contains(h) by {
        assert(field@.to_set().contains(h) == field@.contains(h));
    }
    assert(r@.to_set() =~= reachable(loc, range as int).intersect(board@));
    r
}


/// The waypoints of `p` after its first hex.
fn tail_of(p: &Vec<Hex>) -> (r: Vec<Hex>)
    requires
        p@.len() >= 1,
    ensures
        r@ == p@.drop_first(),
{
    let mut r: Vec<Hex> = Vec::new();
    let mut k: usize = 1;
    while k < p.len()
        invariant
            1 <= k <= p@.len(),
            r@ == p@.subrange(1, k as int),
        decreases p@.len() - k,
    {
        r.push(p[k]);
        k = k + 1;
    }
    r
}

impl Game {
    proof fn lemma_units_view(&self, old_units: Seq<Unit>, i: int, u: Unit)
        requires
            0 <= i < old_units.len(),
            self.units@ == old_units.update(i, u),
        ensures
            self@.units == old_units.map_values(|w: Unit| w@).update(i, u@),
    {
        assert(self@.units =~= old_units.map_values(|w: Unit| w@).update(i, u@));
    }

    /// Selects unit `i` and flags its activation range: the move from `Idle`
    /// to `UnitSelected`.
    fn select_unit(&mut self, i: usize)
        requires
            old(self).wf(),
            old(self).mode == PlayerState::Idle,
            i < old(self).units@.len(),
            old(self)@.board.contains(old(self).units@[i as int].loc),
        ensures
            final(self).wf(),
            final(self)@ == (GameView {
                mode: PlayerState::UnitSelected,
                selected_unit: Some(i),
                activated: activation(old(self)@, i as int),
                ..old(self)@
            }),
    {
        let ghost ui = self.units@[i as int]@;
        assert(motion_ok(ui));
        let act = activated_tiles(&self.board, self.units[i].loc, self.units[i].move_range);
        self.activated = act;
        self.selected_unit = Some(i);
        self.mode = PlayerState::UnitSelected;
    }

    /// Removes `Selected` from the selected unit, if there is one: the mode
    /// returns to `Idle`, and every `Selected` and `Activated` flag, the move
    /// target and the click memory are cleared.
    pub fn deselect_unit(&mut self)
        requires
            old(self).wf(),
        ensures
            final(self).wf(),
            old(self).selected_unit.is_some() ==> final(self)@ == deselected(old(self)@),
            old(self).selected_unit.is_none() ==> final(self)@ == old(self)@,
    {
        if self.selected_unit.is_some() {
            self.mode = PlayerState::Idle;
            self.selected_unit = None;
            self.selected_tile = None;
            self.move_target = None;
            self.activated = Vec::new();
            self.clicks.clear_last_clicked();
            assert(self.activated@.to_set() =~= Set::<Hex>::empty());
        }
    }

    /// Confirms the move of the selected unit `i` to its move target `to`:
    /// plans a shortest path, sets the unit off along it, and leaves
    /// `UnitSelected` for `UnitMoving`.
    fn start_move(&mut self, i: usize, to: Hex)
        requires
            old(self).wf(),
            old(self).mode == PlayerState::UnitSelected,
            old(self).selected_unit == Some(i),
            old(self).move_target == Some(to),
        ensures
            final(self).wf(),
            final(self)@ == (GameView { mode: PlayerState::UnitMoving, units: final(self)@.units, ..deselected(old(self)@) }),
            final(self)@.units.len() == old(self)@.units.len(),
            forall|j: int| 0 <= j < old(self)@.units.len() && j != i ==> final(self)@.units[j] == old(self)@.units[j],
            set_off(old(self)@.units[i as int], final(self)@.units[i as int], old(self)@.units[i as int].loc, to),
    {
        let ghost g = self@;
        let from = self.units[i].loc;
        let ghost u0 = self.units@[i as int]@;
        assert(motion_ok(u0));
        assert(activation(g, i as int).contains(to));
        assert(inner(to));
        assert(inner(from));
        proof {
            crate::hex::lemma_distance_zero(from, to);
        }
        let p = match shortest_path(from, to) {
            Some(p) => p,
            None => {
                return;
            },
        };
        assert(p@.len() >= 2);
        proof {
            crate::hex::lemma_chain_distance(p@);
            assert forall|k: int| 0 <= k < p@.len() implies in_bounds(#[trigger] p@[k]) by {
                assert(hex_distance(from, p@[k]) <= k);
                crate::hex::lemma_near_inner(from, p@[k]);
            }
        }
        assert(direction_between(p@[0], p@[0int + 1]).is_some());
        let rest = tail_of(&p);
        let direction = match neighbor_direction(from, rest[0]) {
            Some(d) => d,
            None => {
                return;
            },
        };
        let moving = Moving { towards: rest[0], direction };
        let u = Unit {
            health: self.units[i].health,
            loc: from,
            move_range: self.units[i].move_range,
            moving: Some(moving),
            path: rest,
        };
        let ghost old_units = self.units@;
        self.units.set(i, u);
        proof {
            self.lemma_units_view(old_units, i as int, u);
            assert(seq![from] + rest@ =~= p@);
        }
        self.mode = PlayerState::UnitMoving;
        self.selected_unit = None;
        self.selected_tile = None;
        self.move_target = None;
        self.activated = Vec::new();
        self.clicks.clear_last_clicked();
        assert(self.activated@.to_set() =~= Set::<Hex>::empty());
        assert forall|j: int| 0 <= j < self.units@.len() implies motion_ok(#[trigger] self.units@[j]@) by {
            if j != i {
                assert(self.units@[j] == old_units[j]);
            }
        }
    }
}


/// A confirmed move ends with the unit at rest on its target, once it has
/// reached each waypoint of its path and then its last hex.
pub proof fn lemma_confirmed_move_arrives(u: UnitView, v: UnitView, from: Hex, to: Hex)
    requires
        set_off(u, v, from, to),
        motion_ok(v),
    ensures
        arrivals(v, v.path.len() + 1).loc == to,
        arrivals(v, v.path.len() + 1).moving.is_none(),
        arrivals(v, v.path.len() + 1).path.len() == 0,
{
    lemma_move_completes(v);
}

impl Game {
    /// Resolves a click on hex `h`: off the board it is ignored; on it, the
    /// click memory tells a new tile from a double click, and the mode
    /// decides what follows.
    pub fn click(&mut self, h: Hex) -> (r: ClickOutcome)
        requires
            old(self).wf(),
        ensures
            final(self).wf(),
            !old(self)@.board.contains(h) || old(self).mode == PlayerState::UnitMoving
                ==> r == ClickOutcome::Ignored && final(self)@ == old(self)@,
            old(self)@.board.contains(h) && old(self).mode == PlayerState::Idle
                ==> idle_click(old(self)@, h, r, final(self)@),
            old(self)@.board.contains(h) && old(self).mode == PlayerState::UnitSelected
                ==> selected_click(old(self)@, h, r, final(self)@),
    {
        if !self.board.contains(h) {
            return ClickOutcome::Ignored;
        }
        match self.mode {
            PlayerState::UnitMoving => ClickOutcome::Ignored,
            PlayerState::Idle => {
                match self.clicks.resolve(h) {
                    ClickSignal::HexDoubleClicked(_) => ClickOutcome::Ignored,
                    ClickSignal::NewTileClicked(_) => {
                        self.selected_tile = Some(h);
                        match self.unit_at(h) {
                            Some(i) => {
                                self.select_unit(i);
                                ClickOutcome::UnitSelected(i)
                            },
                            None => ClickOutcome::TileSelected(h),
                        }
                    },
                }
            },
            PlayerState::UnitSelected => {
                let i = match self.selected_unit {
                    Some(i) => i,
                    None => {
                        return ClickOutcome::Ignored;
                    },
                };
                let loc = self.units[i].loc;
                match self.clicks.resolve(h) {
                    ClickSignal::NewTileClicked(_) => {
                        if self.is_activated(h) {
                            self.selected_tile = Some(h);
                            if h != loc {
                                self.move_target = Some(h);
                                ClickOutcome::MoveTargetSet(h)
                            } else {
                                ClickOutcome::TileSelected(h)
                            }
                        } else {
                            self.deselect_unit();
                            ClickOutcome::ClickedOutsideActivationRange(h)
                        }
                    },
                    ClickSignal::HexDoubleClicked(_) => {
                        if self.move_target == Some(h) && h != loc {
                            self.start_move(i, h);
                            ClickOutcome::MoveTargetConfirmed { unit: i, from: loc, to: h }
                        } else {
                            ClickOutcome::HexDoubleClicked(h)
                        }
                    },
                }
            },
        }
    }

    /// The pointer is over hex `h`: on the board, entering a new hex moves
    /// the `Hovered` flag there; staying on a hex, or leaving the board,
    /// changes nothing.
    pub fn pointer_at(&mut self, h: Hex) -> (r: Option<HoverChange>)
        requires
            old(self).wf(),
        ensures
            final(self).wf(),
            !old(self)@.board.contains(h) || old(self)@.hovered == Some(h)
                ==> r.is_none() && final(self)@ == old(self)@,
            old(self)@.board.contains(h) && old(self)@.hovered != Some(h)
                ==> r == Some(HoverChange { left: old(self)@.hovered, entered: h })
                && final(self)@ == (GameView { hovered: Some(h), ..old(self)@ }),
    {
        if !self.board.contains(h) {
            return None;
        }
        self.hover.enter(h)
    }

    /// Unit `i` reached the waypoint it headed for: it takes up its next
    /// waypoint, or stops where no waypoint is left; the mode returns from
    /// `UnitMoving` to `Idle` when it stops.
    pub fn waypoint_reached(&mut self, i: usize) -> (r: Arrival)
        requires
            old(self).wf(),
            i < old(self).units@.len(),
        ensures
            final(self).wf(),
            final(self)@.units == old(self)@.units.update(i as int, arrive(old(self)@.units[i as int])),
            r == (match old(self)@.units[i as int].moving {
                None => Arrival::NotMoving,
                Some(_) => match arrive(old(self)@.units[i as int]).moving {
                    Some(m) => Arrival::Advanced(m),
                    None => Arrival::Finished(old(self)@.units[i as int].loc),
                },
            }),
            r is Finished && old(self).mode == PlayerState::UnitMoving
                ==> final(self)@ == (GameView { mode: PlayerState::Idle, units: final(self)@.units, ..old(self)@ }),
            !(r is Finished && old(self).mode == PlayerState::UnitMoving)
                ==> final(self)@ == (GameView { units: final(self)@.units, ..old(self)@ }),
    {
        let ghost u0 = self.units@[i as int]@;
        assert(motion_ok(u0));
        proof {
            lemma_arrive_keeps_motion_ok(u0);
        }
        if self.units[i].moving.is_none() {
            assert(self@.units =~= old(self)@.units.update(i as int, arrive(u0)));
            return Arrival::NotMoving;
        }
        let loc = self.units[i].loc;
        let health = self.units[i].health;
        let move_range = self.units[i].move_range;
        let r;
        let u;
        if self.units[i].path.len() > 0 {
            let next = self.units[i].path[0];
            match neighbor_direction(loc, next) {
                Some(direction) => {
                    let rest = tail_of(&self.units[i].path);
                    let moving = Moving { towards: next, direction };
                    u = Unit { health, loc: next, move_range, moving: Some(moving), path: rest };
                    r = Arrival::Advanced(moving);
                },
                None => {
                    u = Unit { health, loc, move_range, moving: None, path: Vec::new() };
                    r = Arrival::Finished(loc);
                },
            }
        } else {
            u = Unit { health, loc, move_range, moving: None, path: Vec::new() };
            r = Arrival::Finished(loc);
        }
        let ghost old_units = self.units@;
        self.units.set(i, u);
        proof {
            self.lemma_units_view(old_units, i as int, u);
            assert(u@.path =~= arrive(u0).path);
            assert(u@ == arrive(u0));
        }
        let stopped = match r {
            Arrival::Finished(_) => true,
            _ => false,
        };
        if stopped && self.mode == PlayerState::UnitMoving {
            self.mode = PlayerState::Idle;
        }
        assert forall|j: int| 0 <= j < self.units@.len() implies motion_ok(#[trigger] self.units@[j]@) by {
            if j != i {
                assert(self.units@[j] == old_units[j]);
            }
        }
        assert forall|j: int| 0 <= j < self.units@.len() && j != i implies #[trigger] self.units@[j] == old_units[j] by {}
        r
    }
}

} // verus!
