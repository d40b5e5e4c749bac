use blacktext::game_state::{GameMode, GameState, Phase};
use blacktext::selection::PlayerAction;

#[test]
fn test_double_only_on_two_cards() {
    let mut gs = GameState::init(GameMode::SingleDeck);
    gs.deal_round();
    if gs.phase == Phase::PlayerTurn {
        let actions = PlayerAction::available(&gs);
        assert!(actions.contains(&PlayerAction::Hit));
        assert!(actions.contains(&PlayerAction::Stand));
    }
}
