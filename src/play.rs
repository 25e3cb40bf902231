use vstd::prelude::*;

use crate::models::{answer_bool, GameQuestionFull};

verus! {

/// The encouragement band of a final score.
#[derive(Debug, Clone, Copy, PartialEq, Eq, Structural)]
pub enum ScoreBand {
    /// Every question answered correctly.
    Perfect,
    /// At least 80%.
    Great,
    /// At least 60%.
    NotBad,
    /// Below 60%, or a game without questions.
    KeepPracticing,
}

/// The band of `correct` right answers out of `total`, compared exactly as
/// fractions. A game without questions scores 0%.
pub open spec fn band_spec(correct: int, total: int) -> ScoreBand {
    if total > 0 && correct == total {
        ScoreBand::Perfect
    } else if total > 0 && 100 * correct >= 80 * total {
        ScoreBand::Great
    } else if total > 0 && 100 * correct >= 60 * total {
        ScoreBand::NotBad
    } else {
        ScoreBand::KeepPracticing
    }
}

/// The percentage of right answers in tenths of a percent, rounded half up;
/// 0 for a game without questions.
pub open spec fn percentage_tenths_spec(correct: int, total: int) -> int {
    if total == 0 {
        0
    } else {
        (2000 * correct + total) / (2 * total)
    }
}

/// The number of answers among the first `n` that match their question.
pub open spec fn correct_count(qs: Seq<GameQuestionFull>, answers: Seq<bool>, n: int) -> int
    decreases n,
{
    if n <= 0 {
        0
    } else {
        correct_count(qs, answers, n - 1) + if answers[n - 1] == answer_bool(
            qs[n - 1].correct_answer,
        ) {
            1int
        } else {
            0int
        }
    }
}

proof fn lemma_correct_count_bound(qs: Seq<GameQuestionFull>, answers: Seq<bool>, n: int)
    requires
        n >= 0,
    ensures
        0 <= correct_count(qs, answers, n) <= n,
    decreases n,
{
    if n > 0 {
        lemma_correct_count_bound(qs, answers, n - 1);
    }
}

/// The score percentage in tenths of a percent (750 stands for 75.0%),
/// rounded half up. A game without questions scores 0 instead of dividing
/// by zero.
pub fn percentage_tenths(correct: u32, total: u32) -> (r: u32)
    requires
        correct <= total,
    ensures
        r == percentage_tenths_spec(correct as int, total as int),
        r <= 1000,
{
    if total == 0 {
        return 0;
    }
    let c = correct as u64;
    let t = total as u64;
    let r = (2000 * c + t) / (2 * t);
    assert(r <= 1000) by (nonlinear_arith)
        requires
            r == (2000 * c + t) / (2 * t),
            c <= t,
            t > 0,
    {
        assert(2000 * c + t < 1001 * (2 * t));
    }
    r as u32
}

/// The encouragement band of a score. A game without questions falls in
/// the lowest band.
pub fn score_band(correct: u32, total: u32) -> (r: ScoreBand)
    requires
        correct <= total,
    ensures
        r == band_spec(correct as int, total as int),
{
    let c = correct as u64;
    let t = total as u64;
    if t > 0 && c == t {
        ScoreBand::Perfect
    } else if t > 0 && 100 * c >= 80 * t {
        ScoreBand::Great
    } else if t > 0 && 100 * c >= 60 * t {
        ScoreBand::NotBad
    } else {
        ScoreBand::KeepPracticing
    }
}

impl ScoreBand {
    /// The message shown for the band at the end of a game.
    pub fn message(&self) -> (r: &'static str)
        ensures
            *self == ScoreBand::Perfect ==> r@ == "Perfect score! Congratulations!"@,
            *self == ScoreBand::Great ==> r@ == "Great job!"@,
            *self == ScoreBand::NotBad ==> r@ == "Not bad!"@,
            *self == ScoreBand::KeepPracticing ==> r@ == "Keep practicing!"@,
    {
        match self {
            ScoreBand::Perfect => "Perfect score! Congratulations!",
            ScoreBand::Great => "Great job!",
            ScoreBand::NotBad => "Not bad!",
            ScoreBand::KeepPracticing => "Keep practicing!",
        }
    }
}

/// What a player learns after answering one question.
#[derive(Debug, Clone, Copy, PartialEq, Eq, Structural)]
pub enum Feedback {
    Correct,
    /// The answer was wrong; `answer` is the right one.
    Incorrect { answer: bool },
    /// Every question has been answered already.
    Finished,
}

/// One play of a game: its questions in order, how many have been answered,
/// and the answers given.
pub struct PlaySession {
    questions: Vec<GameQuestionFull>,
    answers: Vec<bool>,
    correct: u32,
}

impl PlaySession {
    pub closed spec fn spec_questions(&self) -> Seq<GameQuestionFull> {
        self.questions@
    }

    pub closed spec fn spec_answers(&self) -> Seq<bool> {
        self.answers@
    }

    pub closed spec fn spec_correct(&self) -> int {
        self.correct as int
    }

    pub open spec fn wf(&self) -> bool {
        &&& self.spec_answers().len() <= self.spec_questions().len()
        &&& self.spec_questions().len() <= u32::MAX
        &&& self.spec_correct() == correct_count(
            self.spec_questions(),
            self.spec_answers(),
            self.spec_answers().len() as int,
        )
    }

    proof fn lemma_wf_bound(&self)
        requires
            self.wf(),
        ensures
            self.correct as int <= self.answers@.len(),
    {
        lemma_correct_count_bound(self.questions@, self.answers@, self.answers@.len() as int);
    }

    /// Starts a play of `questions`, listed in the order they are asked.
    pub fn new(questions: Vec<GameQuestionFull>) -> (r: PlaySession)
        requires
            questions.len() <= u32::MAX,
        ensures
            r.wf(),
            r.spec_questions() == questions@,
            r.spec_answers().len() == 0,
    {
        PlaySession { questions, answers: Vec::new(), correct: 0 }
    }

    /// The number of questions in the game.
    pub fn total(&self) -> (r: u32)
        requires
            self.wf(),
        ensures
            r == self.spec_questions().len(),
    {
        self.questions.len() as u32
    }

    /// The number of questions answered so far.
    pub fn answered(&self) -> (r: u32)
        requires
            self.wf(),
        ensures
            r == self.spec_answers().len(),
    {
        self.answers.len() as u32
    }

    /// The number of right answers so far.
    pub fn correct_answers(&self) -> (r: u32)
        requires
            self.wf(),
        ensures
            r == correct_count(self.spec_questions(), self.spec_answers(), self.spec_answers().len() as int),
            r <= self.spec_answers().len(),
    {
        proof {
            self.lemma_wf_bound();
        }
        self.correct
    }

    /// Whether every question has been answered.
    pub fn is_finished(&self) -> (r: bool)
        requires
            self.wf(),
        ensures
            r == (self.spec_answers().len() == self.spec_questions().len()),
    {
        self.answers.len() == self.questions.len()
    }

    /// The question to be answered next, if any is left.
    pub fn current(&self) -> (r: Option<&GameQuestionFull>)
        requires
            self.wf(),
        ensures
            self.spec_answers().len() < self.spec_questions().len() ==> r == Some(
                &self.spec_questions()[self.spec_answers().len() as int],
            ),
            self.spec_answers().len() == self.spec_questions().len() ==> r is None,
    {
        if self.answers.len() < self.questions.len() {
            Some(&self.questions[self.answers.len()])
        } else {
            None
        }
    }

    /// Records the player's answer to the current question and says whether
    /// it was right. Once every question is answered nothing changes.
    pub fn submit(&mut self, guess: bool) -> (r: Feedback)
        requires
            old(self).wf(),
        ensures
            final(self).wf(),
            final(self).spec_questions() == old(self).spec_questions(),
            old(self).spec_answers().len() == old(self).spec_questions().len() ==> {
                &&& r == Feedback::Finished
                &&& final(self).spec_answers() == old(self).spec_answers()
            },
            old(self).spec_answers().len() < old(self).spec_questions().len() ==> {
                let q = old(self).spec_questions()[old(self).spec_answers().len() as int];
                &&& final(self).spec_answers() == old(self).spec_answers().push(guess)
                &&& r == (if guess == answer_bool(q.correct_answer) {
                    Feedback::Correct
                } else {
                    Feedback::Incorrect { answer: answer_bool(q.correct_answer) }
                })
            },
    {
        let i = self.answers.len();
        if i >= self.questions.len() {
            return Feedback::Finished;
        }
        proof {
            self.lemma_wf_bound();
        }
        let right = self.questions[i].correct_answer.is_matched_by(guess);
        let ghost qs = self.questions@;
        let ghost before = self.answers@;
        self.answers.push(guess);
        proof {
            let after = self.answers@;
            assert forall|k: int| 0 <= k < before.len() implies after[k] == before[k] by {}
            assert(correct_count(qs, after, before.len() as int) == correct_count(
                qs,
                before,
                before.len() as int,
            )) by {
                lemma_correct_count_prefix(qs, before, after, before.len() as int);
            }
        }
        if right {
            self.correct = self.correct + 1;
            Feedback::Correct
        } else {
            Feedback::Incorrect { answer: self.questions[i].correct_answer.to_bool() }
        }
    }

    /// The final percentage, in tenths of a percent, of the answers so far.
    pub fn percentage_tenths(&self) -> (r: u32)
        requires
            self.wf(),
        ensures
            r == percentage_tenths_spec(
                correct_count(self.spec_questions(), self.spec_answers(), self.spec_answers().len() as int),
                self.spec_questions().len() as int,
            ),
    {
        proof {
            self.lemma_wf_bound();
        }
        percentage_tenths(self.correct, self.questions.len() as u32)
    }

    /// The band of the score over the whole game.
    pub fn band(&self) -> (r: ScoreBand)
        requires
            self.wf(),
        ensures
            r == band_spec(
                correct_count(self.spec_questions(), self.spec_answers(), self.spec_answers().len() as int),
                self.spec_questions().len() as int,
            ),
    {
        proof {
            self.lemma_wf_bound();
        }
        score_band(self.correct, self.questions.len() as u32)
    }
}

proof fn lemma_correct_count_prefix(qs: Seq<GameQuestionFull>, a: Seq<bool>, b: Seq<bool>, n: int)
    requires
        0 <= n <= a.len(),
        n <= b.len(),
        forall|k: int| 0 <= k < n ==> a[k] == b[k],
    ensures
        correct_count(qs, a, n) == correct_count(qs, b, n),
    decreases n,
{
    if n > 0 {
        lemma_correct_count_prefix(qs, a, b, n - 1);
    }
}

/// Scoring an empty game does not divide by zero: it scores 0% and falls in
/// the lowest band.
pub proof fn lemma_empty_game_score()
    ensures
        percentage_tenths_spec(0, 0) == 0,
        band_spec(0, 0) == ScoreBand::KeepPracticing,
{
}

} // verus!
