use blacktext::app::{App, GameKey, Screen};
use blacktext::cards::{Card, Rank, Suit};
use blacktext::game_state::{GameMode, Hand, Outcome, Phase};
use blacktext::selection::{clamp_cursor, PlayerAction};

#[test]
fn new_app_and_new_game() {
    let mut app = App::new();
    assert_eq!(app.screen, Screen::Start);
    assert_eq!(app.cursor, 0);
    assert!(app.message.is_empty());
    app.new_game(GameMode::SixDeck);
    assert_eq!(app.screen, Screen::Game);
    assert_eq!(app.game_state.game_mode, GameMode::SixDeck);
    assert_eq!(app.game_state.shoe.len(), 312);
    assert_eq!(app.message, "←/→: Bet   Enter: Deal");
}

#[test]
fn screen_keys() {
    let mut app = App::new();
    app.new_game(GameMode::SingleDeck);
    app.handle_game_key(GameKey::Char('?'));
    assert_eq!(app.screen, Screen::Help);
    app.screen = Screen::Game;
    app.handle_game_key(GameKey::Esc);
    assert_eq!(app.screen, Screen::GameMenu);
    app.screen = Screen::Game;
    app.handle_game_key(GameKey::Char('d'));
    assert!(app.debug_mode);
    app.handle_game_key(GameKey::Char('d'));
    assert!(!app.debug_mode);
}

#[test]
fn betting_keys() {
    let mut app = App::new();
    app.new_game(GameMode::SingleDeck);
    app.handle_game_key(GameKey::Right);
    assert_eq!(app.game_state.bet, 15);
    app.handle_game_key(GameKey::Up);
    assert_eq!(app.game_state.bet, 20);
    app.handle_game_key(GameKey::Left);
    assert_eq!(app.game_state.bet, 15);
    app.handle_game_key(GameKey::Home);
    assert_eq!(app.game_state.bet, 5);
    app.handle_game_key(GameKey::End);
    assert_eq!(app.game_state.bet, 100);
    app.handle_game_key(GameKey::Down);
    assert_eq!(app.game_state.bet, 95);
    app.handle_game_key(GameKey::Enter);
    assert_ne!(app.game_state.phase, Phase::Betting);
    assert_eq!(app.game_state.player.0.len(), 2);
    if app.game_state.phase == Phase::PlayerTurn {
        assert_eq!(app.message, "←/→: Choose   Enter: Confirm");
    }
}

fn card(s: Suit, r: Rank) -> Card {
    Card::new(s, r)
}

#[test]
fn player_turn_keys_and_round_over() {
    let mut app = App::new();
    app.new_game(GameMode::SingleDeck);
    let gs = &mut app.game_state;
    gs.phase = Phase::PlayerTurn;
    gs.hole_hidden = true;
    gs.bankroll = 90;
    gs.bet = 10;
    gs.player = Hand(vec![card(Suit::Spades, Rank::R10), card(Suit::Hearts, Rank::R9)]);
    gs.dealer = Hand(vec![card(Suit::Clubs, Rank::R10), card(Suit::Hearts, Rank::R7)]);
    app.update();
    assert_eq!(PlayerAction::available(&app.game_state).len(), 3);
    app.handle_game_key(GameKey::Right);
    app.handle_game_key(GameKey::Right);
    app.handle_game_key(GameKey::Right);
    assert_eq!(app.cursor, 2);
    app.handle_game_key(GameKey::Left);
    assert_eq!(app.cursor, 1);
    // Stand.
    app.handle_game_key(GameKey::Enter);
    assert_eq!(app.cursor, 0);
    assert_eq!(app.game_state.outcome, Some(Outcome::PlayerWin));
    assert_eq!(app.message, "You win!   Enter: Next");
    app.handle_game_key(GameKey::Char(' '));
    assert_eq!(app.game_state.phase, Phase::Betting);
    assert_eq!(app.game_state.bankroll, 110);
}

#[test]
fn stand_hotkey_and_game_over() {
    let mut app = App::new();
    app.new_game(GameMode::SingleDeck);
    let gs = &mut app.game_state;
    gs.phase = Phase::PlayerTurn;
    gs.hole_hidden = true;
    gs.bankroll = 0;
    gs.bet = 10;
    gs.player = Hand(vec![card(Suit::Spades, Rank::R10), card(Suit::Hearts, Rank::R6)]);
    gs.dealer = Hand(vec![card(Suit::Clubs, Rank::R10), card(Suit::Hearts, Rank::R7)]);
    app.handle_game_key(GameKey::Char('s'));
    assert_eq!(app.game_state.outcome, Some(Outcome::DealerWin));
    assert_eq!(app.message, "Dealer wins.   Enter: Next");
    app.handle_game_key(GameKey::Enter);
    assert_eq!(app.screen, Screen::GameOver);
    assert_eq!(app.message, "←/→: Bet   Enter: Deal");
}

#[test]
fn cursor_clamping_and_labels() {
    let app = App::new();
    assert_eq!(clamp_cursor(7, &app.game_state), 1);
    assert_eq!(clamp_cursor(0, &app.game_state), 0);
    assert_eq!(PlayerAction::Hit.label(), "Hit");
    assert_eq!(PlayerAction::Stand.label(), "Stand");
    assert_eq!(PlayerAction::Double.label(), "Double");
    assert!(app.key_fits_check(GameKey::Enter));
}

#[test]
fn start_screen_keys() {
    let mut app = App::new();
    assert!(!app.start_screen_key(GameKey::Char('x')));
    assert_eq!(app.screen, Screen::Start);
    assert!(app.start_screen_key(GameKey::Char('6')));
    assert_eq!(app.screen, Screen::Game);
    assert_eq!(app.game_state.game_mode, GameMode::SixDeck);
    let mut app = App::new();
    assert!(app.start_screen_key(GameKey::Char('1')));
    assert_eq!(app.game_state.game_mode, GameMode::SingleDeck);
    assert_eq!(app.game_state.shoe.len(), 52);
    let mut app = App::new();
    assert!(app.start_screen_key(GameKey::Esc));
    assert_eq!(app.screen, Screen::Quit);
}

#[test]
fn game_menu_keys() {
    let mut app = App::new();
    app.new_game(GameMode::SingleDeck);
    app.screen = Screen::GameMenu;
    assert!(!app.game_menu_key(GameKey::Enter));
    assert_eq!(app.screen, Screen::GameMenu);
    assert!(app.game_menu_key(GameKey::Esc));
    assert_eq!(app.screen, Screen::Game);
    app.screen = Screen::GameMenu;
    app.game_state.bankroll = 40;
    assert!(app.game_menu_key(GameKey::Char('6')));
    assert_eq!(app.game_state.bankroll, 100);
    assert_eq!(app.game_state.game_mode, GameMode::SixDeck);
    app.screen = Screen::GameMenu;
    assert!(app.game_menu_key(GameKey::Char('q')));
    assert_eq!(app.screen, Screen::Quit);
}

#[test]
fn game_over_keys() {
    let mut app = App::new();
    app.new_game(GameMode::SixDeck);
    app.game_state.bankroll = 0;
    app.update();
    assert_eq!(app.screen, Screen::GameOver);
    assert!(!app.game_over_key(GameKey::Char('x')));
    assert!(app.game_over_key(GameKey::Char('y')));
    assert_eq!(app.screen, Screen::Game);
    assert_eq!(app.game_state.game_mode, GameMode::SixDeck);
    assert_eq!(app.game_state.bankroll, 100);
    app.screen = Screen::GameOver;
    assert!(app.game_over_key(GameKey::Char('n')));
    assert_eq!(app.screen, Screen::Quit);
    app.screen = Screen::GameOver;
    assert!(app.game_over_key(GameKey::Esc));
    assert_eq!(app.screen, Screen::Quit);
}

#[test]
fn end_key_when_broke_keeps_the_minimum() {
    let mut app = App::new();
    app.new_game(GameMode::SingleDeck);
    app.game_state.bankroll = 2;
    app.handle_game_key(GameKey::End);
    assert_eq!(app.game_state.bet, 5);
    assert_eq!(app.screen, Screen::GameOver);
}
