use vstd::prelude::*;

use crate::models::{Admin, Player};

verus! {

/// Failures of the account operations.
#[derive(Debug, Clone, Copy, PartialEq, Eq, Structural)]
pub enum AccountError {
    /// No account has that username and password.
    NotFound,
    /// A player with that username exists already.
    DuplicateUsername,
}

/// Whether an admin row has the given username and stored password.
pub open spec fn admin_matches(a: Admin, username: Seq<char>, password: Seq<char>) -> bool {
    a.username@ == username && a.password_hash@ == password
}

/// Whether a player row has the given username and stored password.
pub open spec fn player_matches(p: Player, username: Seq<char>, password: Seq<char>) -> bool {
    p.username@ == username && p.password_hash@ == password
}

/// Whether some player row has the given username.
pub open spec fn username_taken(rows: Seq<Player>, username: Seq<char>) -> bool {
    exists|i: int| 0 <= i < rows.len() && rows[i].username@ == username
}

/// Picks the first admin row whose username and stored password both equal
/// the ones given; fails with `NotFound` when none does, a wrong password
/// included.
pub fn login_admin(rows: &Vec<Admin>, username: &String, password: &String) -> (r: Result<
    Admin,
    AccountError,
>)
    ensures
        (forall|i: int| 0 <= i < rows@.len() ==> !admin_matches(rows@[i], username@, password@))
            <==> r == Err::<Admin, AccountError>(AccountError::NotFound),
        (exists|i: int| 0 <= i < rows@.len() && admin_matches(rows@[i], username@, password@)) ==> r is Ok,
        r matches Ok(a) ==> exists|i: int|
            0 <= i < rows@.len() && admin_matches(rows@[i], username@, password@) && a
                == rows@[i] && forall|j: int|
                0 <= j < i ==> !admin_matches(rows@[j], username@, password@),
{
    let mut i: usize = 0;
    while i < rows.len()
        invariant
            0 <= i <= rows@.len(),
            forall|j: int| 0 <= j < i ==> !admin_matches(rows@[j], username@, password@),
        decreases rows@.len() - i,
    {
        let row = &rows[i];
        if row.username == *username && row.password_hash == *password {
            let a = Admin {
                admin_id: row.admin_id,
                username: row.username.clone(),
                password_hash: row.password_hash.clone(),
                created_at: row.created_at,
            };
            assert(a == rows@[i as int]);
            return Ok(a);
        }
        i = i + 1;
    }
    Err(AccountError::NotFound)
}

/// Picks the first player row whose username and stored password both equal
/// the ones given; fails with `NotFound` when none does, a wrong password
/// included.
pub fn login_player(rows: &Vec<Player>, username: &String, password: &String) -> (r: Result<
    Player,
    AccountError,
>)
    ensures
        (forall|i: int| 0 <= i < rows@.len() ==> !player_matches(rows@[i], username@, password@))
            <==> r == Err::<Player, AccountError>(AccountError::NotFound),
        (exists|i: int| 0 <= i < rows@.len() && player_matches(rows@[i], username@, password@)) ==> r is Ok,
        r matches Ok(p) ==> exists|i: int|
            0 <= i < rows@.len() && player_matches(rows@[i], username@, password@) && p
                == rows@[i] && forall|j: int|
                0 <= j < i ==> !player_matches(rows@[j], username@, password@),
{
    let mut i: usize = 0;
    while i < rows.len()
        invariant
            0 <= i <= rows@.len(),
            forall|j: int| 0 <= j < i ==> !player_matches(rows@[j], username@, password@),
        decreases rows@.len() - i,
    {
        let row = &rows[i];
        if row.username == *username && row.password_hash == *password {
            let p = Player {
                player_id: row.player_id,
                username: row.username.clone(),
                password_hash: row.password_hash.clone(),
                created_at: row.created_at,
            };
            assert(p == rows@[i as int]);
            return Ok(p);
        }
        i = i + 1;
    }
    Err(AccountError::NotFound)
}

/// Checks that a new player's username is free among the existing players.
pub fn check_new_player(existing: &Vec<Player>, username: &String) -> (r: Result<(), AccountError>)
    ensures
        username_taken(existing@, username@) ==> r == Err::<(), AccountError>(
            AccountError::DuplicateUsername,
        ),
        !username_taken(existing@, username@) ==> r == Ok::<(), AccountError>(()),
{
    let mut i: usize = 0;
    while i < existing.len()
        invariant
            0 <= i <= existing@.len(),
            forall|j: int| 0 <= j < i ==> existing@[j].username@ != username@,
        decreases existing@.len() - i,
    {
        if existing[i].username == *username {
            return Err(AccountError::DuplicateUsername);
        }
        i = i + 1;
    }
    Ok(())
}

/// No two rows share a username.
pub open spec fn unique_admin_usernames(rows: Seq<Admin>) -> bool {
    forall|i: int, j: int|
        0 <= i < rows.len() && 0 <= j < rows.len() && i != j ==> rows[i].username@
            != rows[j].username@
}

/// No two rows share a username.
pub open spec fn unique_player_usernames(rows: Seq<Player>) -> bool {
    forall|i: int, j: int|
        0 <= i < rows.len() && 0 <= j < rows.len() && i != j ==> rows[i].username@
            != rows[j].username@
}

/// In a table of distinct usernames, an admin login with a stored username
/// and another password matches no row, so it finds no account; with the
/// stored password the stored row is the first match, so it is the one
/// returned.
pub proof fn lemma_admin_login_outcomes(rows: Seq<Admin>, k: int, password: Seq<char>)
    requires
        0 <= k < rows.len(),
        unique_admin_usernames(rows),
        password != rows[k].password_hash@,
    ensures
        forall|i: int| 0 <= i < rows.len() ==> !admin_matches(rows[i], rows[k].username@, password),
        admin_matches(rows[k], rows[k].username@, rows[k].password_hash@),
        forall|j: int|
            0 <= j < k ==> !admin_matches(rows[j], rows[k].username@, rows[k].password_hash@),
{
}

/// In a table of distinct usernames, a player login with a stored username
/// and another password matches no row, so it finds no account; with the
/// stored password the stored row is the first match, so it is the one
/// returned.
pub proof fn lemma_player_login_outcomes(rows: Seq<Player>, k: int, password: Seq<char>)
    requires
        0 <= k < rows.len(),
        unique_player_usernames(rows),
        password != rows[k].password_hash@,
    ensures
        forall|i: int|
            0 <= i < rows.len() ==> !player_matches(rows[i], rows[k].username@, password),
        player_matches(rows[k], rows[k].username@, rows[k].password_hash@),
        forall|j: int|
            0 <= j < k ==> !player_matches(rows[j], rows[k].username@, rows[k].password_hash@),
{
}

/// Who is logged in: nobody, one administrator, or one player, never both.
#[derive(Debug, Clone)]
pub enum Session {
    LoggedOut,
    Admin(Admin),
    Player(Player),
}

impl Session {
    /// A session in which nobody is logged in.
    pub fn new() -> (r: Session)
        ensures
            r is LoggedOut,
    {
        Session::LoggedOut
    }

    /// Logs `admin` in, ending any player's session.
    pub fn set_admin(&mut self, admin: Admin)
        ensures
            *final(self) == Session::Admin(admin),
    {
        *self = Session::Admin(admin);
    }

    /// Logs `player` in, ending any administrator's session.
    pub fn set_player(&mut self, player: Player)
        ensures
            *final(self) == Session::Player(player),
    {
        *self = Session::Player(player);
    }

    /// The id of the logged-in administrator, if one is.
    pub fn admin_id(&self) -> (r: Option<i32>)
        ensures
            self matches Session::Admin(a) ==> r == Some(a.admin_id),
            !(self is Admin) ==> r is None,
    {
        match self {
            Session::Admin(a) => Some(a.admin_id),
            _ => None,
        }
    }

    /// Whether a player is logged in.
    pub fn is_player(&self) -> (r: bool)
        ensures
            r == (self is Player),
    {
        match self {
            Session::Player(_) => true,
            _ => false,
        }
    }
}

} // verus!
