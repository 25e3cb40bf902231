use vstd::prelude::*;
use vstd::string::*;

use crate::auth::{AccountError, Session};
use crate::models::{Admin, Player, Question};

verus! {

/// The screen the terminal session is on.
#[derive(Debug, Clone, Copy, PartialEq, Eq, Structural)]
pub enum Screen {
    Main,
    Admin,
    /// Adding questions to the game just created.
    BuildGame { game_id: i32 },
    /// Editing a chosen game.
    EditGame { game_id: i32 },
    Exit,
}

/// What the session does before showing the next screen.
#[derive(Debug, Clone, Copy, PartialEq, Eq, Structural)]
pub enum MenuAction {
    Nothing,
    InvalidOption,
    AskAdminLogin,
    AskPlayerLogin,
    /// List the games, ask for one and play it.
    ChooseGameToPlay,
    CreateQuestion,
    /// Create a game, then build it.
    CreateGame,
    /// List the games and ask which one to edit.
    ChooseGameToEdit,
    /// Create a question and link it into the game.
    CreateAndLinkQuestion { game_id: i32 },
    /// List all questions, ask for one and link it into the game.
    LinkExistingQuestion { game_id: i32 },
    RemoveQuestion { game_id: i32 },
    ReorderQuestions { game_id: i32 },
    /// Report that the credentials matched no account.
    InvalidLogin,
}

/// The option a line picks: 1 to 4 for that single digit, else 0.
pub open spec fn option_of(line: Seq<char>) -> int {
    if line == seq!['1'] {
        1
    } else if line == seq!['2'] {
        2
    } else if line == seq!['3'] {
        3
    } else if line == seq!['4'] {
        4
    } else {
        0
    }
}

/// The next screen and action for a line typed on a screen.
pub open spec fn menu_step_spec(screen: Screen, session: Session, line: Seq<char>) -> (
    Screen,
    MenuAction,
) {
    let o = option_of(line);
    match screen {
        Screen::Main => if o == 1 {
            if session is Admin {
                (Screen::Admin, MenuAction::Nothing)
            } else {
                (Screen::Main, MenuAction::AskAdminLogin)
            }
        } else if o == 2 {
            if session is Player {
                (Screen::Main, MenuAction::ChooseGameToPlay)
            } else {
                (Screen::Main, MenuAction::AskPlayerLogin)
            }
        } else if o == 3 {
            (Screen::Exit, MenuAction::Nothing)
        } else {
            (Screen::Main, MenuAction::InvalidOption)
        },
        Screen::Admin => if o == 1 {
            (Screen::Admin, MenuAction::CreateQuestion)
        } else if o == 2 {
            (Screen::Admin, MenuAction::CreateGame)
        } else if o == 3 {
            (Screen::Admin, MenuAction::ChooseGameToEdit)
        } else if o == 4 {
            (Screen::Main, MenuAction::Nothing)
        } else {
            (Screen::Admin, MenuAction::InvalidOption)
        },
        Screen::BuildGame { game_id } => if o == 1 {
            (screen, MenuAction::CreateAndLinkQuestion { game_id })
        } else if o == 2 {
            (screen, MenuAction::LinkExistingQuestion { game_id })
        } else if o == 3 {
            (Screen::Admin, MenuAction::Nothing)
        } else {
            (screen, MenuAction::InvalidOption)
        },
        Screen::EditGame { game_id } => if o == 1 {
            (screen, MenuAction::CreateAndLinkQuestion { game_id })
        } else if o == 2 {
            (screen, MenuAction::RemoveQuestion { game_id })
        } else if o == 3 {
            (screen, MenuAction::ReorderQuestions { game_id })
        } else if o == 4 {
            (Screen::Admin, MenuAction::Nothing)
        } else {
            (screen, MenuAction::InvalidOption)
        },
        Screen::Exit => (Screen::Exit, MenuAction::Nothing),
    }
}

/// The option a typed line picks: 1 to 4 for that single digit, else 0.
pub fn menu_option(line: &str) -> (r: u32)
    ensures
        r == option_of(line@),
{
    if line.unicode_len() != 1 {
        assert(line@ != seq!['1'] && line@ != seq!['2'] && line@ != seq!['3'] && line@ != seq!['4']);
        return 0;
    }
    let c = line.get_char(0);
    assert(line@ =~= seq![c]);
    if c == '1' {
        1
    } else if c == '2' {
        2
    } else if c == '3' {
        3
    } else if c == '4' {
        4
    } else {
        0
    }
}

/// Decides what a line typed on a screen leads to.
pub fn menu_step(screen: Screen, session: &Session, line: &str) -> (r: (Screen, MenuAction))
    ensures
        r == menu_step_spec(screen, *session, line@),
{
    let o = menu_option(line);
    match screen {
        Screen::Main => if o == 1 {
            if session.admin_id().is_some() {
                (Screen::Admin, MenuAction::Nothing)
            } else {
                (Screen::Main, MenuAction::AskAdminLogin)
            }
        } else if o == 2 {
            if session.is_player() {
                (Screen::Main, MenuAction::ChooseGameToPlay)
            } else {
                (Screen::Main, MenuAction::AskPlayerLogin)
            }
        } else if o == 3 {
            (Screen::Exit, MenuAction::Nothing)
        } else {
            (Screen::Main, MenuAction::InvalidOption)
        },
        Screen::Admin => if o == 1 {
            (Screen::Admin, MenuAction::CreateQuestion)
        } else if o == 2 {
            (Screen::Admin, MenuAction::CreateGame)
        } else if o == 3 {
            (Screen::Admin, MenuAction::ChooseGameToEdit)
        } else if o == 4 {
            (Screen::Main, MenuAction::Nothing)
        } else {
            (Screen::Admin, MenuAction::InvalidOption)
        },
        Screen::BuildGame { game_id } => if o == 1 {
            (screen, MenuAction::CreateAndLinkQuestion { game_id })
        } else if o == 2 {
            (screen, MenuAction::LinkExistingQuestion { game_id })
        } else if o == 3 {
            (Screen::Admin, MenuAction::Nothing)
        } else {
            (screen, MenuAction::InvalidOption)
        },
        Screen::EditGame { game_id } => if o == 1 {
            (screen, MenuAction::CreateAndLinkQuestion { game_id })
        } else if o == 2 {
            (screen, MenuAction::RemoveQuestion { game_id })
        } else if o == 3 {
            (screen, MenuAction::ReorderQuestions { game_id })
        } else if o == 4 {
            (Screen::Admin, MenuAction::Nothing)
        } else {
            (screen, MenuAction::InvalidOption)
        },
        Screen::Exit => (Screen::Exit, MenuAction::Nothing),
    }
}

/// Applies the outcome of an admin login: on success the admin is logged in
/// (ending any player's session) and the admin menu follows; on failure
/// nothing changes and the main menu follows.
pub fn after_admin_login(session: &mut Session, outcome: Result<Admin, AccountError>) -> (r: (
    Screen,
    MenuAction,
))
    ensures
        outcome matches Ok(a) ==> *final(session) == Session::Admin(a) && r == (
        Screen::Admin,
        MenuAction::Nothing,
        ),
        outcome is Err ==> *final(session) == *old(session) && r == (
        Screen::Main,
        MenuAction::InvalidLogin,
        ),
{
    match outcome {
        Ok(a) => {
            session.set_admin(a);
            (Screen::Admin, MenuAction::Nothing)
        },
        Err(_) => (Screen::Main, MenuAction::InvalidLogin),
    }
}

/// Applies the outcome of a player login: on success the player is logged in
/// (ending any admin's session) and choosing a game follows; on failure
/// nothing changes and the main menu follows.
pub fn after_player_login(session: &mut Session, outcome: Result<Player, AccountError>) -> (r: (
    Screen,
    MenuAction,
))
    ensures
        outcome matches Ok(p) ==> *final(session) == Session::Player(p) && r == (
        Screen::Main,
        MenuAction::ChooseGameToPlay,
        ),
        outcome is Err ==> *final(session) == *old(session) && r == (
        Screen::Main,
        MenuAction::InvalidLogin,
        ),
{
    match outcome {
        Ok(p) => {
            session.set_player(p);
            (Screen::Main, MenuAction::ChooseGameToPlay)
        },
        Err(_) => (Screen::Main, MenuAction::InvalidLogin),
    }
}

/// Whether `id` is one of the listed questions.
pub fn question_listed(qs: &Vec<Question>, id: i32) -> (r: bool)
    ensures
        r == exists|i: int| 0 <= i < qs@.len() && qs@[i].question_id == id,
{
    let mut i: usize = 0;
    while i < qs.len()
        invariant
            0 <= i <= qs@.len(),
            forall|j: int| 0 <= j < i ==> qs@[j].question_id != id,
        decreases qs@.len() - i,
    {
        if qs[i].question_id == id {
            return true;
        }
        i = i + 1;
    }
    false
}

} // verus!
