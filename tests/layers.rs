use lichdom::layers::MapLayer;
use lichdom::states::{AppState, PlayerState, TurnQueue};

#[test]
fn layers_iterate_in_setup_order() {
    let all = MapLayer::iterator();
    assert_eq!(
        all,
        vec![MapLayer::BASE, MapLayer::HOVERED, MapLayer::ACTIVATED, MapLayer::SELECTED]
    );
}

#[test]
fn layer_names() {
    assert_eq!(MapLayer::BASE.to_string(), "Base");
    assert_eq!(MapLayer::ACTIVATED.to_string(), "Activated");
    assert_eq!(MapLayer::SELECTED.to_string(), "Selected");
    assert_eq!(MapLayer::HOVERED.to_string(), "Hovered");
}

#[test]
fn layer_ids_round_trip() {
    for layer in MapLayer::iterator() {
        assert_eq!(MapLayer::from_id(layer.to_id()), Some(layer));
    }
    assert_eq!(MapLayer::BASE.to_id(), 0);
    assert_eq!(MapLayer::ACTIVATED.to_id(), 1);
    assert_eq!(MapLayer::SELECTED.to_id(), 2);
    assert_eq!(MapLayer::HOVERED.to_id(), 3);
    assert_eq!(MapLayer::from_id(4), None);
    assert_eq!(MapLayer::from_id(u32::MAX), None);
}

#[test]
fn layer_textures() {
    assert_eq!(MapLayer::BASE.get_texture(), "grass-tile.png");
    assert_eq!(MapLayer::ACTIVATED.get_texture(), "activated-tile.png");
    assert_eq!(MapLayer::SELECTED.get_texture(), "selected-tile.png");
    assert_eq!(MapLayer::HOVERED.get_texture(), "hovered-tile.png");
}

#[test]
fn defaults() {
    assert_eq!(MapLayer::default(), MapLayer::BASE);
    assert_eq!(AppState::default(), AppState::LoadingMap);
    assert_eq!(PlayerState::default(), PlayerState::Idle);
    assert_eq!(TurnQueue::default().turn_number, 1);
}

#[test]
fn turn_number_counts_presses() {
    let mut q = TurnQueue::default();
    q.update_turn_number(0);
    assert_eq!(q.turn_number, 1);
    q.update_turn_number(3);
    assert_eq!(q.turn_number, 4);
}
