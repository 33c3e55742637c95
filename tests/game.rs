use lichdom::board::HexMap;
use lichdom::game::{Arrival, ClickOutcome, Game, Moving, Unit};
use lichdom::hex::{Direction, Hex};
use lichdom::input::{ClickMemory, ClickSignal, HoverChange, HoverMemory};
use lichdom::layers::MapLayer;
use lichdom::overlay::{OverlayChange, Overlays};
use lichdom::states::PlayerState;

fn h(x: i32, y: i32) -> Hex {
    Hex { x, y }
}

fn distance(a: Hex, b: Hex) -> i32 {
    let dx = b.x - a.x;
    let dy = b.y - a.y;
    dx.abs().max(dy.abs()).max((dx + dy).abs())
}

fn new_game() -> Game {
    let board = HexMap::hexagon(h(0, 0), 5);
    Game::new(board, vec![Unit::new(10, h(1, 0), 4)])
}

fn arrive_until_stopped(game: &mut Game) -> usize {
    let mut arrivals = 0;
    loop {
        arrivals += 1;
        assert!(arrivals < 100);
        if let Arrival::Finished(_) = game.waypoint_reached(0) {
            return arrivals;
        }
    }
}

#[test]
fn second_click_on_a_hex_is_one_double_click() {
    let mut memory = ClickMemory::new();
    assert_eq!(memory.resolve(h(2, 0)), ClickSignal::NewTileClicked(h(2, 0)));
    assert_eq!(memory.resolve(h(2, 0)), ClickSignal::HexDoubleClicked(h(2, 0)));
    assert_eq!(memory.resolve(h(2, 1)), ClickSignal::NewTileClicked(h(2, 1)));
    memory.clear_last_clicked();
    assert_eq!(memory.resolve(h(2, 1)), ClickSignal::NewTileClicked(h(2, 1)));
}

#[test]
fn hover_moves_only_on_a_new_hex() {
    let mut memory = HoverMemory::new();
    assert_eq!(memory.enter(h(0, 0)), Some(HoverChange { left: None, entered: h(0, 0) }));
    assert_eq!(memory.enter(h(0, 0)), None);
    assert_eq!(
        memory.enter(h(1, 0)),
        Some(HoverChange { left: Some(h(0, 0)), entered: h(1, 0) })
    );
}

#[test]
fn pointer_off_the_board_changes_nothing() {
    let mut game = new_game();
    assert_eq!(game.pointer_at(h(9, 9)), None);
    assert_eq!(game.hover.last, None);
    assert_eq!(
        game.pointer_at(h(2, 2)),
        Some(HoverChange { left: None, entered: h(2, 2) })
    );
    assert_eq!(game.pointer_at(h(2, 2)), None);
    assert_eq!(
        game.pointer_at(h(2, 1)),
        Some(HoverChange { left: Some(h(2, 2)), entered: h(2, 1) })
    );
    assert_eq!(game.hover.last, Some(h(2, 1)));
}

#[test]
fn selecting_a_unit_activates_its_field_of_movement() {
    let mut game = new_game();
    assert_eq!(game.click(h(1, 0)), ClickOutcome::UnitSelected(0));
    assert_eq!(game.mode, PlayerState::UnitSelected);
    assert_eq!(game.selected_unit, Some(0));
    assert_eq!(game.activated.len(), 61);
    for x in -6..7 {
        for y in -6..7 {
            let c = h(x, y);
            let expected = distance(h(1, 0), c) <= 4 && game.board.contains(c);
            assert_eq!(game.is_activated(c), expected);
        }
    }
}

#[test]
fn selection_is_clipped_to_the_board() {
    let board = HexMap::hexagon(h(0, 0), 5);
    let mut game = Game::new(board, vec![Unit::new(10, h(4, 0), 3)]);
    assert_eq!(game.click(h(4, 0)), ClickOutcome::UnitSelected(0));
    for c in &game.activated {
        assert!(game.board.contains(*c));
        assert!(distance(h(4, 0), *c) <= 3);
    }
    assert!(!game.is_activated(h(7, 0)));
    assert!(game.is_activated(h(5, 0)));
    assert!(game.activated.len() < 37);
}

#[test]
fn clicking_an_empty_tile_while_idle_selects_the_tile() {
    let mut game = new_game();
    assert_eq!(game.click(h(0, 2)), ClickOutcome::TileSelected(h(0, 2)));
    assert_eq!(game.selected_tile, Some(h(0, 2)));
    assert_eq!(game.mode, PlayerState::Idle);
    assert_eq!(game.click(h(0, 2)), ClickOutcome::Ignored);
    assert_eq!(game.click(h(1, 0)), ClickOutcome::UnitSelected(0));
}

#[test]
fn deselecting_the_unit_returns_to_idle_and_clears_flags() {
    let mut game = new_game();
    game.click(h(1, 0));
    assert_eq!(game.click(h(2, 0)), ClickOutcome::MoveTargetSet(h(2, 0)));
    game.deselect_unit();
    assert_eq!(game.mode, PlayerState::Idle);
    assert_eq!(game.selected_unit, None);
    assert!(game.activated.is_empty());
    assert_eq!(game.move_target, None);
    assert_eq!(game.selected_tile, None);
    assert_eq!(game.clicks.last, None);
    for c in &game.board.hexes {
        assert!(!game.is_activated(*c));
    }
}

#[test]
fn clicking_outside_the_activation_range_returns_to_idle() {
    let mut game = new_game();
    game.click(h(1, 0));
    assert_eq!(game.click(h(-4, 0)), ClickOutcome::ClickedOutsideActivationRange(h(-4, 0)));
    assert_eq!(game.mode, PlayerState::Idle);
    assert!(game.activated.is_empty());
    assert_eq!(game.move_target, None);
    assert_eq!(game.selected_unit, None);
}

#[test]
fn clicking_off_the_board_is_ignored() {
    let mut game = new_game();
    game.click(h(1, 0));
    assert_eq!(game.click(h(8, 0)), ClickOutcome::Ignored);
    assert_eq!(game.mode, PlayerState::UnitSelected);
    assert_eq!(game.activated.len(), 61);
    game.deselect_unit();
    assert_eq!(game.click(h(8, 0)), ClickOutcome::Ignored);
    assert_eq!(game.mode, PlayerState::Idle);
}

#[test]
fn double_click_elsewhere_confirms_nothing() {
    let mut game = new_game();
    game.click(h(1, 0));
    assert_eq!(game.click(h(1, 0)), ClickOutcome::HexDoubleClicked(h(1, 0)));
    assert_eq!(game.click(h(2, 0)), ClickOutcome::MoveTargetSet(h(2, 0)));
    assert_eq!(game.click(h(1, 0)), ClickOutcome::TileSelected(h(1, 0)));
    assert_eq!(game.move_target, Some(h(2, 0)));
    assert_eq!(game.click(h(1, 0)), ClickOutcome::HexDoubleClicked(h(1, 0)));
    assert_eq!(game.mode, PlayerState::UnitSelected);
}

#[test]
fn grid_scenario_select_target_confirm_and_arrive() {
    let mut game = new_game();
    assert_eq!(game.board.len(), 91);
    assert_eq!(game.click(h(1, 0)), ClickOutcome::UnitSelected(0));
    assert_eq!(game.mode, PlayerState::UnitSelected);
    let field = lichdom::movement::field_of_movement(h(1, 0), 4);
    assert_eq!(game.activated.len(), field.len());
    assert!(game.is_activated(h(1, 0)));

    assert_eq!(game.click(h(3, 0)), ClickOutcome::MoveTargetSet(h(3, 0)));
    assert_eq!(game.move_target, Some(h(3, 0)));
    assert_eq!(game.selected_tile, Some(h(3, 0)));

    assert_eq!(
        game.click(h(3, 0)),
        ClickOutcome::MoveTargetConfirmed { unit: 0, from: h(1, 0), to: h(3, 0) }
    );
    assert_eq!(game.mode, PlayerState::UnitMoving);
    assert!(game.activated.is_empty());
    assert_eq!(game.move_target, None);
    assert_eq!(game.units[0].path.len(), 2);
    assert_eq!(game.units[0].path[1], h(3, 0));
    let first = game.units[0].path[0];
    assert_eq!(distance(h(1, 0), first), 1);
    assert_eq!(game.units[0].moving.unwrap().towards, first);

    assert_eq!(game.click(h(0, 0)), ClickOutcome::Ignored);
    assert_eq!(arrive_until_stopped(&mut game), 3);
    assert_eq!(game.units[0].loc, h(3, 0));
    assert!(game.units[0].moving.is_none());
    assert!(game.units[0].path.is_empty());
    assert_eq!(game.mode, PlayerState::Idle);
    assert_eq!(game.click(h(3, 0)), ClickOutcome::UnitSelected(0));
}

#[test]
fn waypoints_advance_one_at_a_time() {
    let mut game = new_game();
    game.click(h(1, 0));
    game.click(h(1, 1));
    game.click(h(1, 1));
    assert_eq!(game.units[0].path, vec![h(1, 1)]);
    assert_eq!(
        game.units[0].moving,
        Some(Moving { towards: h(1, 1), direction: Direction::Bottom })
    );
    assert_eq!(
        game.waypoint_reached(0),
        Arrival::Advanced(Moving { towards: h(1, 1), direction: Direction::Bottom })
    );
    assert_eq!(game.units[0].loc, h(1, 1));
    assert!(game.units[0].path.is_empty());
    assert_eq!(game.mode, PlayerState::UnitMoving);
    assert_eq!(game.waypoint_reached(0), Arrival::Finished(h(1, 1)));
    assert_eq!(game.mode, PlayerState::Idle);
    assert_eq!(game.waypoint_reached(0), Arrival::NotMoving);
}

#[test]
fn move_to_a_far_tile_ends_on_it() {
    let mut game = new_game();
    game.click(h(1, 0));
    assert_eq!(game.click(h(-2, 3)), ClickOutcome::MoveTargetSet(h(-2, 3)));
    game.click(h(-2, 3));
    assert_eq!(game.units[0].path.len(), 3);
    let mut previous = h(1, 0);
    for c in game.units[0].path.clone() {
        assert_eq!(distance(previous, c), 1);
        previous = c;
    }
    assert_eq!(arrive_until_stopped(&mut game), 4);
    assert_eq!(game.units[0].loc, h(-2, 3));
    assert_eq!(game.mode, PlayerState::Idle);
}

#[test]
fn overlays_follow_the_flags() {
    let mut game = new_game();
    let mut overlays = Overlays::new();
    game.pointer_at(h(0, 1));
    let changes = game.sync_overlays(&mut overlays);
    assert_eq!(
        changes,
        vec![OverlayChange { layer: MapLayer::HOVERED, hex: h(0, 1), spawn: true }]
    );
    assert_eq!(overlays.hovered, vec![h(0, 1)]);

    game.click(h(1, 0));
    game.pointer_at(h(0, 2));
    let changes = game.sync_overlays(&mut overlays);
    assert_eq!(overlays.activated.len(), 61);
    assert_eq!(overlays.selected, vec![h(1, 0)]);
    assert_eq!(overlays.hovered, vec![h(0, 2)]);
    assert_eq!(changes.len(), 61 + 1 + 2);
    assert!(changes.contains(&OverlayChange { layer: MapLayer::HOVERED, hex: h(0, 1), spawn: false }));
    assert!(changes.contains(&OverlayChange { layer: MapLayer::SELECTED, hex: h(1, 0), spawn: true }));

    assert!(game.sync_overlays(&mut overlays).is_empty());

    game.click(h(-4, 0));
    let changes = game.sync_overlays(&mut overlays);
    assert!(overlays.activated.is_empty());
    assert!(overlays.selected.is_empty());
    assert_eq!(changes.len(), 61 + 1);
    assert!(changes.iter().all(|c| !c.spawn));
}
