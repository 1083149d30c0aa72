use jeu_aventure::ui::{GameState, UI};

#[test]
fn health_bar_fill_is_the_share_of_health() {
    assert_eq!(UI::health_bar_fill(100, 100, 200), 200);
    assert_eq!(UI::health_bar_fill(50, 100, 200), 100);
    assert_eq!(UI::health_bar_fill(1, 3, 200), 66);
    assert_eq!(UI::health_bar_fill(95, 100, 200_000), 190_000);
    assert_eq!(UI::health_bar_fill(18, 30, 30_000), 18_000);
}

#[test]
fn health_bar_fill_is_limited_to_the_bar() {
    assert_eq!(UI::health_bar_fill(0, 100, 200), 0);
    assert_eq!(UI::health_bar_fill(-5, 100, 200), 0);
    assert_eq!(UI::health_bar_fill(150, 100, 200), 200);
    assert_eq!(UI::health_bar_fill(50, 0, 200), 0);
    assert_eq!(UI::health_bar_fill(50, -10, 200), 0);
    assert_eq!(UI::health_bar_fill(i32::MAX - 1, i32::MAX, u32::MAX), u32::MAX - 3);
}

#[test]
fn game_states_are_distinct() {
    assert_ne!(GameState::Playing, GameState::GameOver);
    assert_ne!(GameState::Playing, GameState::Victory);
    assert_ne!(GameState::GameOver, GameState::Victory);
}
