// A trivia game's logic: questions and games, the dense ordering of the
// questions linked into a game, logins and the session, and scoring a play.
pub mod auth;
pub mod config;
pub mod input;
pub mod links;
pub mod menu;
pub mod models;
pub mod ordering;
pub mod parse;
pub mod play;
