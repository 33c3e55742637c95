use lichdom::board::HexMap;
use lichdom::hex::{flipped_after_turn, mirror_for, Direction, Hex};
use lichdom::movement::{extra_step_cost, field_of_movement, shortest_path};

fn h(x: i32, y: i32) -> Hex {
    Hex { x, y }
}

fn distance(a: Hex, b: Hex) -> i32 {
    let dx = b.x - a.x;
    let dy = b.y - a.y;
    dx.abs().max(dy.abs()).max((dx + dy).abs())
}

#[test]
fn hexagon_board_holds_every_hex_within_radius() {
    let board = HexMap::hexagon(h(0, 0), 5);
    assert_eq!(board.len(), 91);
    assert!(board.contains(h(0, 0)));
    assert!(board.contains(h(5, 0)));
    assert!(board.contains(h(-5, 5)));
    assert!(board.contains(h(3, -5)));
    assert!(!board.contains(h(6, 0)));
    assert!(!board.contains(h(3, 3)));
    assert_eq!(HexMap::hexagon(h(2, 2), 0).len(), 1);
    assert!(HexMap::hexagon(h(2, 2), 0).contains(h(2, 2)));
}

#[test]
fn board_insert_keeps_hexes_once() {
    let mut board = HexMap::new();
    assert_eq!(board.len(), 0);
    board.insert(h(1, 2));
    board.insert(h(1, 2));
    board.insert(h(0, 0));
    assert_eq!(board.len(), 2);
    assert!(board.contains(h(1, 2)));
    assert!(!board.contains(h(2, 1)));
}

#[test]
fn field_with_zero_budget_is_the_origin() {
    assert_eq!(field_of_movement(h(1, 0), 0), vec![h(1, 0)]);
    assert_eq!(field_of_movement(h(-3, 7), 0), vec![h(-3, 7)]);
}

#[test]
fn field_holds_every_hex_within_budget() {
    let origin = h(1, 0);
    let field = field_of_movement(origin, 4);
    assert_eq!(field.len(), 61);
    for x in -10..10 {
        for y in -10..10 {
            let c = h(x, y);
            assert_eq!(field.contains(&c), distance(origin, c) <= 4);
        }
    }
    assert_eq!(field_of_movement(h(0, 0), 1).len(), 7);
}

#[test]
fn field_grows_with_budget() {
    let origin = h(2, -1);
    for n in 1..6u32 {
        let smaller = field_of_movement(origin, n - 1);
        let larger = field_of_movement(origin, n);
        assert!(larger.len() > smaller.len());
        for c in smaller {
            assert!(larger.contains(&c));
        }
    }
}

#[test]
fn terrain_costs_nothing_extra() {
    assert_eq!(extra_step_cost(0, 0), Some(0));
    assert_eq!(extra_step_cost(-4, 9), Some(0));
}

#[test]
fn shortest_path_walks_neighbours() {
    let p = shortest_path(h(1, 0), h(3, 0)).unwrap();
    assert_eq!(p.len(), 3);
    assert_eq!(p[0], h(1, 0));
    assert_eq!(p[2], h(3, 0));
    assert_eq!(distance(p[0], p[1]), 1);
    assert_eq!(distance(p[1], p[2]), 1);

    let q = shortest_path(h(-2, 4), h(3, -1)).unwrap();
    assert_eq!(q.len(), 6);
    assert_eq!(q[0], h(-2, 4));
    assert_eq!(q[5], h(3, -1));
    for w in q.windows(2) {
        assert_eq!(distance(w[0], w[1]), 1);
    }

    assert_eq!(shortest_path(h(4, 4), h(4, 4)).unwrap(), vec![h(4, 4)]);
}

#[test]
fn mirroring_follows_horizontal_direction() {
    assert_eq!(mirror_for(Direction::TopRight), Some(false));
    assert_eq!(mirror_for(Direction::BottomRight), Some(false));
    assert_eq!(mirror_for(Direction::TopLeft), Some(true));
    assert_eq!(mirror_for(Direction::BottomLeft), Some(true));
    assert_eq!(mirror_for(Direction::Top), None);
    assert_eq!(mirror_for(Direction::Bottom), None);
    assert!(flipped_after_turn(true, Direction::Top));
    assert!(!flipped_after_turn(false, Direction::Bottom));
    assert!(!flipped_after_turn(true, Direction::TopRight));
    assert!(flipped_after_turn(false, Direction::BottomLeft));
}

#[test]
fn board_round_trips_through_world_positions() {
    let layout = hexx::HexLayout {
        hex_size: hexx::Vec2::new(32.0, 18.0),
        orientation: hexx::HexOrientation::Flat,
        origin: hexx::Vec2::ZERO,
        invert_x: false,
        invert_y: false,
    };
    let board = HexMap::hexagon(h(0, 0), 5);
    assert_eq!(board.hexes.len(), 91);
    for c in &board.hexes {
        let pos: hexx::Vec2 = layout.hex_to_world_pos(hexx::Hex::new(c.x, c.y));
        let back = layout.world_pos_to_hex(pos);
        assert_eq!(h(back.x, back.y), *c);
    }
}
