use vstd::prelude::*;

verus! {

/// The correct answer of a question: a two-valued enumeration that the
/// database stores as a small integer (0 for false, 1 for true).
#[derive(Debug, Clone, Copy, PartialEq, Eq, Structural)]
pub enum Answer {
    True,
    False,
}

/// A stored answer code that is neither 0 nor 1.
#[derive(Debug, Clone, Copy, PartialEq, Eq, Structural)]
pub struct InvalidAnswerCode {
    pub code: i8,
}

/// The boolean that an answer stands for.
pub open spec fn answer_bool(a: Answer) -> bool {
    a is True
}

/// The small-integer encoding of an answer.
pub open spec fn answer_code(a: Answer) -> i8 {
    if a is True { 1 } else { 0 }
}

/// The answer that a stored code stands for, if any.
pub open spec fn answer_of_code(v: i8) -> Option<Answer> {
    if v == 0 {
        Some(Answer::False)
    } else if v == 1 {
        Some(Answer::True)
    } else {
        None
    }
}

/// The answer that a boolean stands for.
pub open spec fn bool_answer(b: bool) -> Answer {
    if b { Answer::True } else { Answer::False }
}

impl Answer {
    pub fn to_bool(&self) -> (r: bool)
        ensures
            r == answer_bool(*self),
    {
        match self {
            Answer::True => true,
            Answer::False => false,
        }
    }

    pub fn from_bool(value: bool) -> (r: Answer)
        ensures
            r == bool_answer(value),
    {
        if value {
            Answer::True
        } else {
            Answer::False
        }
    }

    /// Encodes the answer for storage.
    pub fn to_code(&self) -> (r: i8)
        ensures
            r == answer_code(*self),
    {
        match self {
            Answer::False => 0,
            Answer::True => 1,
        }
    }

    /// Decodes a stored answer; any code but 0 and 1 is refused.
    pub fn from_code(value: i8) -> (r: Result<Answer, InvalidAnswerCode>)
        ensures
            value == 0 ==> r == Ok::<Answer, InvalidAnswerCode>(Answer::False),
            value == 1 ==> r == Ok::<Answer, InvalidAnswerCode>(Answer::True),
            r is Ok <==> answer_of_code(value) is Some,
            r matches Ok(a) ==> answer_of_code(value) == Some(a),
            value != 0 && value != 1 ==> r == Err::<Answer, InvalidAnswerCode>(
                InvalidAnswerCode { code: value },
            ),
    {
        match value {
            0 => Ok(Answer::False),
            1 => Ok(Answer::True),
            _ => Err(InvalidAnswerCode { code: value }),
        }
    }

    /// Whether a player's boolean answer equals this one: `true` matches
    /// `True`, `false` matches `False`.
    pub fn is_matched_by(&self, guess: bool) -> (r: bool)
        ensures
            r == (guess == answer_bool(*self)),
    {
        match self {
            Answer::True => guess,
            Answer::False => !guess,
        }
    }
}

impl From<bool> for Answer {
    fn from(value: bool) -> (r: Answer) {
        Answer::from_bool(value)
    }
}

impl vstd::std_specs::convert::FromSpecImpl<bool> for Answer {
    open spec fn obeys_from_spec() -> bool {
        true
    }

    open spec fn from_spec(v: bool) -> Answer {
        bool_answer(v)
    }
}

impl From<Answer> for bool {
    fn from(value: Answer) -> (r: bool) {
        value.to_bool()
    }
}

impl vstd::std_specs::convert::FromSpecImpl<Answer> for bool {
    open spec fn obeys_from_spec() -> bool {
        true
    }

    open spec fn from_spec(v: Answer) -> bool {
        answer_bool(v)
    }
}

impl From<Answer> for i8 {
    fn from(value: Answer) -> (r: i8) {
        value.to_code()
    }
}

impl vstd::std_specs::convert::FromSpecImpl<Answer> for i8 {
    open spec fn obeys_from_spec() -> bool {
        true
    }

    open spec fn from_spec(v: Answer) -> i8 {
        answer_code(v)
    }
}

/// Encoding and decoding undo each other: `true` is stored as 1 and 1
/// decodes to the true answer, `false` is stored as 0 and 0 decodes to the
/// false answer, and every other code fails to decode.
pub proof fn lemma_answer_code_round_trip(b: bool, v: i8)
    ensures
        answer_code(bool_answer(b)) == (if b { 1i8 } else { 0i8 }),
        answer_of_code(answer_code(bool_answer(b))) == Some(bool_answer(b)),
        answer_bool(bool_answer(b)) == b,
        v != 0 && v != 1 ==> answer_of_code(v) is None,
{
}

/// An administrator account. Accounts are created outside this library.
/// `created_at` is the creation time in seconds since the Unix epoch (UTC).
#[derive(Debug, Clone)]
pub struct Admin {
    pub admin_id: i32,
    pub username: String,
    pub password_hash: String,
    pub created_at: Option<i64>,
}

/// A player account. `created_at` is the creation time in seconds since the
/// Unix epoch (UTC).
#[derive(Debug, Clone)]
pub struct Player {
    pub player_id: i32,
    pub username: String,
    pub password_hash: String,
    pub created_at: Option<i64>,
}

/// A game: a titled collection of ordered questions.
#[derive(Debug, Clone)]
pub struct Game {
    pub game_id: i32,
    pub title: String,
    pub description: Option<String>,
}

/// A true/false question.
#[derive(Debug, Clone)]
pub struct Question {
    pub question_id: i32,
    pub question_text: String,
    pub correct_answer: Answer,
}

/// A question as linked into a game, with its position in that game.
#[derive(Debug, Clone)]
pub struct GameQuestionFull {
    pub question_id: i32,
    pub question_text: String,
    pub correct_answer: Answer,
    pub question_order: i32,
}

/// The link between a game and a question, carrying the question's
/// 1-based position in the game.
#[derive(Debug, Clone, Copy, PartialEq, Eq, Structural)]
pub struct GameQuestion {
    pub game_id: i32,
    pub question_id: i32,
    pub question_order: i32,
}

} // verus!
