//! The application state that a front end drives with keys: which screen is
//! shown, the game, the highlighted action and the status line.

use vstd::prelude::*;

use crate::game_state::{GameMode, GameState, Phase};
use crate::selection::{self, available_view, clamped_cursor, PlayerAction};

verus! {

#[derive(Debug, Clone, Copy, PartialEq, Eq, Structural)]
pub enum Screen {
    Start,
    Game,
    GameMenu,
    Help,
    GameOver,
    Quit,
}

#[derive(Debug, Clone, Copy, PartialEq, Eq, Structural)]
pub enum GameKey {
    Left,
    Right,
    Up,
    Down,
    Home,
    End,
    Enter,
    Esc,
    Char(char),
}

pub struct App {
    pub screen: Screen,
    pub game_state: GameState,
    /// Highlighted action during the player's turn.
    pub cursor: usize,
    pub message: String,
    pub debug_mode: bool,
}

/// The status line shown for a game state.
pub open spec fn message_for(game_state: GameState) -> Seq<char> {
    match game_state.phase {
        Phase::Betting => "←/→: Bet   Enter: Deal"@,
        Phase::PlayerTurn => "←/→: Choose   Enter: Confirm"@,
        Phase::RoundOver => match game_state.outcome {
            Some(outcome) => outcome.message_view() + "   Enter: Next"@,
            None => "Enter: Next"@,
        },
    }
}

/// A key that confirms: Enter or the space bar.
pub open spec fn is_confirm(key: GameKey) -> bool {
    key == GameKey::Enter || key == GameKey::Char(' ')
}

/// What the game does with a key in the player's turn when it activates
/// `action` (no action: nothing).
pub open spec fn action_post(action: Option<PlayerAction>, old: GameState, new: GameState) -> bool {
    match action {
        Some(PlayerAction::Hit) => GameState::hit_post(old, new),
        Some(PlayerAction::Stand) => GameState::stand_post(old, new),
        Some(PlayerAction::Double) => GameState::double_post(old, new),
        None => new == old,
    }
}

/// Activating `action` cannot overflow.
pub open spec fn action_fits(action: Option<PlayerAction>, game_state: GameState) -> bool {
    match action {
        Some(PlayerAction::Hit) => game_state.hit_fits(),
        Some(PlayerAction::Stand) => game_state.stand_fits(),
        Some(PlayerAction::Double) => game_state.double_fits(),
        None => true,
    }
}

impl App {
    /// The action under the cursor, if the cursor is on one.
    pub open spec fn action_at_cursor(self) -> Option<PlayerAction> {
        let actions = available_view(self.game_state);
        if self.cursor < actions.len() {
            Some(actions[self.cursor as int])
        } else {
            None
        }
    }

    /// The housekeeping after an action: `self` is what it leaves when the
    /// action left the cursor at `cursor` and the screen at `screen`.
    pub open spec fn tidied(self, cursor: int, screen: Screen) -> bool {
        &&& self.cursor == clamped_cursor(cursor, self.game_state)
        &&& self.message@ == message_for(self.game_state)
        &&& self.screen == if self.game_state.broke() {
            Screen::GameOver
        } else {
            screen
        }
    }

    /// A key handled in the betting phase: what it does to the game, and
    /// where it leaves the cursor.
    pub open spec fn betting_key_post(old: App, key: GameKey, new: GameState, cursor: int) -> bool {
        let gs = old.game_state;
        if key == GameKey::Left || key == GameKey::Down {
            GameState::bet_down_post(gs, new) && cursor == old.cursor
        } else if key == GameKey::Right || key == GameKey::Up {
            GameState::bet_up_post(gs, new) && cursor == old.cursor
        } else if key == GameKey::Home {
            new.same_but_bet(gs) && new.bet == GameState::MIN_BET && cursor == old.cursor
        } else if key == GameKey::End {
            new.same_but_bet(gs) && new.bet == (if gs.max_bet_view() >= GameState::MIN_BET {
                gs.max_bet_view()
            } else {
                GameState::MIN_BET as int
            }) && cursor == old.cursor
        } else if is_confirm(key) {
            GameState::deal_post(gs, new) && cursor == 0
        } else {
            new == gs && cursor == old.cursor
        }
    }

    /// A key handled in the player's turn.
    pub open spec fn player_turn_key_post(old: App, key: GameKey, new: GameState, cursor: int) -> bool {
        let gs = old.game_state;
        let len = available_view(gs).len();
        if key == GameKey::Left {
            new == gs && cursor == if old.cursor > 0 {
                old.cursor - 1
            } else {
                0
            }
        } else if key == GameKey::Right {
            new == gs && cursor == if old.cursor + 1 < len - 1 {
                old.cursor + 1
            } else {
                len - 1
            }
        } else if is_confirm(key) {
            action_post(old.action_at_cursor(), gs, new) && cursor == 0
        } else if key == GameKey::Char('s') {
            GameState::stand_post(gs, new) && cursor == old.cursor
        } else {
            new == gs && cursor == old.cursor
        }
    }

    /// A key handled once the round is over.
    pub open spec fn round_over_key_post(old: App, key: GameKey, new: GameState, cursor: int) -> bool {
        if is_confirm(key) {
            GameState::next_round_post(old.game_state, new) && cursor == 0
        } else {
            new == old.game_state && cursor == old.cursor
        }
    }

    /// What a key on the game screen does.
    pub open spec fn game_key_post(old: App, key: GameKey, new: App) -> bool {
        if key == GameKey::Char('?') {
            &&& new.screen == Screen::Help
            &&& new.game_state == old.game_state
            &&& new.cursor == old.cursor
            &&& new.message == old.message
            &&& new.debug_mode == old.debug_mode
        } else if key == GameKey::Char('d') {
            &&& new.debug_mode == !old.debug_mode
            &&& new.game_state == old.game_state
            &&& new.tidied(old.cursor as int, old.screen)
        } else if key == GameKey::Esc {
            &&& new.screen == Screen::GameMenu
            &&& new.game_state == old.game_state
            &&& new.cursor == old.cursor
            &&& new.message == old.message
            &&& new.debug_mode == old.debug_mode
        } else {
            &&& new.debug_mode == old.debug_mode
            &&& exists|cursor: int|
                {
                    &&& #[trigger] new.tidied(cursor, old.screen)
                    &&& match old.game_state.phase {
                        Phase::Betting => App::betting_key_post(old, key, new.game_state, cursor),
                        Phase::PlayerTurn => App::player_turn_key_post(
                            old,
                            key,
                            new.game_state,
                            cursor,
                        ),
                        Phase::RoundOver => App::round_over_key_post(
                            old,
                            key,
                            new.game_state,
                            cursor,
                        ),
                    }
                }
        }
    }

    /// `new` is `old` shown on `screen`, nothing else changed.
    pub open spec fn shown_on(old: App, new: App, screen: Screen) -> bool {
        &&& new.screen == screen
        &&& new.game_state == old.game_state
        &&& new.cursor == old.cursor
        &&& new.message == old.message
        &&& new.debug_mode == old.debug_mode
    }

    /// `new` is a new game in `mode` started from `old`.
    pub open spec fn started(old: App, new: App, mode: GameMode) -> bool {
        &&& new.game_state.initial(mode)
        &&& new.tidied(0, Screen::Game)
        &&& new.debug_mode == old.debug_mode
    }

    /// A key on the start screen: `1` or `6` starts a game with one deck or
    /// a six-deck shoe, Esc quits; any other key is ignored.
    pub open spec fn start_screen_key_post(old: App, key: GameKey, new: App, done: bool) -> bool {
        if key == GameKey::Char('1') {
            done && App::started(old, new, GameMode::SingleDeck)
        } else if key == GameKey::Char('6') {
            done && App::started(old, new, GameMode::SixDeck)
        } else if key == GameKey::Esc {
            done && App::shown_on(old, new, Screen::Quit)
        } else {
            !done && new == old
        }
    }

    /// A key on the game menu: `1` or `6` starts a new game, `q` quits, Esc
    /// returns to the game; any other key is ignored.
    pub open spec fn game_menu_key_post(old: App, key: GameKey, new: App, done: bool) -> bool {
        if key == GameKey::Char('1') {
            done && App::started(old, new, GameMode::SingleDeck)
        } else if key == GameKey::Char('6') {
            done && App::started(old, new, GameMode::SixDeck)
        } else if key == GameKey::Char('q') {
            done && App::shown_on(old, new, Screen::Quit)
        } else if key == GameKey::Esc {
            done && App::shown_on(old, new, Screen::Game)
        } else {
            !done && new == old
        }
    }

    /// A key on the game-over screen: `y` plays again in the same rule set,
    /// `n` or Esc quits; any other key is ignored.
    pub open spec fn game_over_key_post(old: App, key: GameKey, new: App, done: bool) -> bool {
        if key == GameKey::Char('y') {
            done && App::started(old, new, old.game_state.game_mode)
        } else if key == GameKey::Char('n') || key == GameKey::Esc {
            done && App::shown_on(old, new, Screen::Quit)
        } else {
            !done && new == old
        }
    }

    /// Handling `key` cannot overflow.
    pub open spec fn key_fits(self, key: GameKey) -> bool {
        let gs = self.game_state;
        if key == GameKey::Char('?') || key == GameKey::Char('d') || key == GameKey::Esc {
            true
        } else {
            match gs.phase {
                Phase::Betting => {
                    &&& (key == GameKey::Right || key == GameKey::Up) ==> gs.bet + GameState::BET_STEP <= u32::MAX
                    &&& is_confirm(key) ==> gs.deal_fits()
                },
                Phase::PlayerTurn => {
                    &&& key == GameKey::Right ==> self.cursor < usize::MAX
                    &&& is_confirm(key) ==> action_fits(self.action_at_cursor(), gs)
                    &&& key == GameKey::Char('s') ==> gs.stand_fits()
                },
                Phase::RoundOver => true,
            }
        }
    }

    pub fn new() -> (app: App)
        ensures
            app.screen == Screen::Start,
            app.game_state.initial(GameMode::SingleDeck),
            app.cursor == 0,
            app.message@ == Seq::<char>::empty(),
            !app.debug_mode,
    {
        App {
            screen: Screen::Start,
            game_state: GameState::init(GameMode::SingleDeck),
            cursor: 0,
            message: String::new(),
            debug_mode: false,
        }
    }

    pub fn new_game(&mut self, mode: GameMode)
        ensures
            final(self).game_state.initial(mode),
            final(self).tidied(0, Screen::Game),
            final(self).debug_mode == old(self).debug_mode,
    {
        self.game_state = GameState::init(mode);
        self.cursor = 0;
        self.message = String::new();
        self.screen = Screen::Game;
        self.update();
    }

    /// The action the cursor currently points at, if any.
    fn current_action(&self) -> (a: Option<PlayerAction>)
        ensures
            a == self.action_at_cursor(),
    {
        let actions = PlayerAction::available(&self.game_state);
        if self.cursor < actions.len() {
            Some(actions[self.cursor])
        } else {
            None
        }
    }

    fn activate_action(&mut self)
        requires
            old(self).game_state.phase == Phase::PlayerTurn,
            action_fits(old(self).action_at_cursor(), old(self).game_state),
        ensures
            action_post(old(self).action_at_cursor(), old(self).game_state, final(self).game_state),
            final(self).cursor == 0,
            final(self).screen == old(self).screen,
            final(self).message == old(self).message,
            final(self).debug_mode == old(self).debug_mode,
    {
        match self.current_action() {
            Some(PlayerAction::Hit) => self.game_state.player_hit(),
            Some(PlayerAction::Stand) => self.game_state.player_stand(),
            Some(PlayerAction::Double) => self.game_state.player_double(),
            None => {},
        }
        self.cursor = 0;
    }

    fn betting_key(&mut self, key: &GameKey)
        requires
            old(self).game_state.phase == Phase::Betting,
            old(self).key_fits(*key),
        ensures
            App::betting_key_post(*old(self), *key, final(self).game_state, final(self).cursor as int),
            final(self).screen == old(self).screen,
            final(self).message == old(self).message,
            final(self).debug_mode == old(self).debug_mode,
    {
        match key {
            GameKey::Left | GameKey::Down => self.game_state.bet_down(),
            GameKey::Right | GameKey::Up => self.game_state.bet_up(),
            GameKey::Home => self.game_state.bet = GameState::MIN_BET,
            GameKey::End => self.game_state.bet = self.game_state.max_bet().max(GameState::MIN_BET),
            GameKey::Enter => {
                self.game_state.deal_round();
                self.cursor = 0;
            },
            GameKey::Char(' ') => {
                self.game_state.deal_round();
                self.cursor = 0;
            },
            _ => {},
        }
    }

    fn player_turn_key(&mut self, key: &GameKey)
        requires
            old(self).game_state.phase == Phase::PlayerTurn,
            old(self).key_fits(*key),
        ensures
            App::player_turn_key_post(
                *old(self),
                *key,
                final(self).game_state,
                final(self).cursor as int,
            ),
            final(self).screen == old(self).screen,
            final(self).message == old(self).message,
            final(self).debug_mode == old(self).debug_mode,
    {
        let len = PlayerAction::available(&self.game_state).len();
        match key {
            GameKey::Left => self.cursor = self.cursor.saturating_sub(1),
            GameKey::Right => self.cursor = (self.cursor + 1).min(len.saturating_sub(1)),
            GameKey::Enter => self.activate_action(),
            GameKey::Char(' ') => self.activate_action(),
            // Convenience hotkeys.
            GameKey::Char('s') => self.game_state.player_stand(),
            _ => {},
        }
    }

    fn round_over_key(&mut self, key: &GameKey)
        ensures
            App::round_over_key_post(
                *old(self),
                *key,
                final(self).game_state,
                final(self).cursor as int,
            ),
            final(self).screen == old(self).screen,
            final(self).message == old(self).message,
            final(self).debug_mode == old(self).debug_mode,
    {
        if let GameKey::Enter | GameKey::Char(' ') = key {
            self.game_state.next_round();
            self.cursor = 0;
        }
    }

    /// Handle a key on the start screen; tells whether the screen is done.
    pub fn start_screen_key(&mut self, key: GameKey) -> (done: bool)
        ensures
            App::start_screen_key_post(*old(self), key, *final(self), done),
    {
        match key {
            GameKey::Esc => {
                self.screen = Screen::Quit;
                true
            },
            GameKey::Char('1') => {
                self.new_game(GameMode::SingleDeck);
                true
            },
            GameKey::Char('6') => {
                self.new_game(GameMode::SixDeck);
                true
            },
            _ => false,
        }
    }

    /// Handle a key on the game menu; tells whether the menu is done.
    pub fn game_menu_key(&mut self, key: GameKey) -> (done: bool)
        ensures
            App::game_menu_key_post(*old(self), key, *final(self), done),
    {
        match key {
            GameKey::Char('1') => {
                self.new_game(GameMode::SingleDeck);
                true
            },
            GameKey::Char('6') => {
                self.new_game(GameMode::SixDeck);
                true
            },
            GameKey::Char('q') => {
                self.screen = Screen::Quit;
                true
            },
            GameKey::Esc => {
                self.screen = Screen::Game;
                true
            },
            _ => false,
        }
    }

    /// Handle a key on the game-over screen; tells whether the screen is
    /// done.
    pub fn game_over_key(&mut self, key: GameKey) -> (done: bool)
        ensures
            App::game_over_key_post(*old(self), key, *final(self), done),
    {
        match key {
            GameKey::Char('y') => {
                let mode = self.game_state.game_mode;
                self.new_game(mode);
                true
            },
            GameKey::Char('n') | GameKey::Esc => {
                self.screen = Screen::Quit;
                true
            },
            _ => false,
        }
    }

    /// Handle a key on the Game screen, then run housekeeping.
    pub fn handle_game_key(&mut self, key: GameKey)
        requires
            old(self).key_fits(key),
        ensures
            App::game_key_post(*old(self), key, *final(self)),
    {
        match key {
            GameKey::Char('?') => {
                self.screen = Screen::Help;
                return;
            },
            GameKey::Char('d') => {
                self.debug_mode = !self.debug_mode;
                self.update();
                return;
            },
            GameKey::Esc => {
                self.screen = Screen::GameMenu;
                return;
            },
            _ => {},
        }
        let ghost before = *self;
        match self.game_state.phase {
            Phase::Betting => self.betting_key(&key),
            Phase::PlayerTurn => self.player_turn_key(&key),
            Phase::RoundOver => self.round_over_key(&key),
        }
        let ghost cursor = self.cursor as int;
        self.update();
        assert(self.tidied(cursor, before.screen));
    }

    /// Game-state housekeeping run after each action.
    pub fn update(&mut self)
        ensures
            final(self).tidied(old(self).cursor as int, old(self).screen),
            final(self).game_state == old(self).game_state,
            final(self).debug_mode == old(self).debug_mode,
    {
        self.cursor = selection::clamp_cursor(self.cursor, &self.game_state);
        self.set_message();

        if self.game_state.is_broke() {
            self.screen = Screen::GameOver;
        }
    }

    fn set_message(&mut self)
        ensures
            final(self).message@ == message_for(old(self).game_state),
            final(self).game_state == old(self).game_state,
            final(self).cursor == old(self).cursor,
            final(self).screen == old(self).screen,
            final(self).debug_mode == old(self).debug_mode,
    {
        self.message = match self.game_state.phase {
            Phase::Betting => String::from_str("←/→: Bet   Enter: Deal"),
            Phase::PlayerTurn => String::from_str("←/→: Choose   Enter: Confirm"),
            Phase::RoundOver => match self.game_state.outcome {
                Some(outcome) => {
                    let mut line = String::from_str(outcome.message());
                    line.append("   Enter: Next");
                    line
                },
                None => String::from_str("Enter: Next"),
            },
        };
    }

    /// Whether `handle_game_key` can handle `key` without overflow.
    pub fn key_fits_check(&self, key: GameKey) -> (b: bool)
        ensures
            b == self.key_fits(key),
    {
        match key {
            GameKey::Char('?') | GameKey::Char('d') | GameKey::Esc => return true,
            _ => {},
        }
        let gs = &self.game_state;
        match gs.phase {
            Phase::Betting => match key {
                GameKey::Right | GameKey::Up => gs.bet <= u32::MAX - GameState::BET_STEP,
                GameKey::Enter | GameKey::Char(' ') => gs.deal_fits_check(),
                _ => true,
            },
            Phase::PlayerTurn => match key {
                GameKey::Right => self.cursor < usize::MAX,
                GameKey::Enter | GameKey::Char(' ') => match self.current_action() {
                    Some(PlayerAction::Hit) => gs.hit_fits_check(),
                    Some(PlayerAction::Stand) => gs.stand_fits_check(),
                    Some(PlayerAction::Double) => gs.double_fits_check(),
                    None => true,
                },
                GameKey::Char('s') => gs.stand_fits_check(),
                _ => true,
            },
            Phase::RoundOver => true,
        }
    }
}

} // verus!
