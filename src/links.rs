use vstd::prelude::*;

use crate::models::{GameQuestionFull, Question};
use crate::ordering::{
    apply_order_updates, apply_plan, dense_orders, distinct_ids, is_dense,
    lemma_dense_order_set, lemma_reorder_makes_dense, order_set, reorder_plan, reorder_plan_spec,
    OrderUpdate,
};

verus! {

/// Why a question could not be linked into a game.
#[derive(Debug, Clone, Copy, PartialEq, Eq, Structural)]
pub enum LinkError {
    /// The question is linked into this game already.
    AlreadyLinked,
    /// The next order after the current highest one does not fit in an `i32`.
    OrderOverflow,
    /// The game holds as many questions as an `i32` order can number.
    TooManyQuestions,
}

/// Rows listed in ascending order.
pub open spec fn sorted_by_order(qs: Seq<GameQuestionFull>) -> bool {
    forall|i: int, j: int|
        0 <= i <= j < qs.len() ==> qs[i].question_order <= qs[j].question_order
}

/// The highest order among the rows, or 0 when there are none.
pub open spec fn max_order_spec(qs: Seq<GameQuestionFull>) -> i32
    decreases qs.len(),
{
    if qs.len() == 0 {
        0
    } else if qs.len() == 1 {
        qs[0].question_order
    } else {
        let m = max_order_spec(qs.drop_last());
        if qs.last().question_order > m {
            qs.last().question_order
        } else {
            m
        }
    }
}

/// Whether some row links question `id`.
pub open spec fn has_id(qs: Seq<GameQuestionFull>, id: i32) -> bool {
    exists|i: int| 0 <= i < qs.len() && qs[i].question_id == id
}

/// The position of the row that links question `id`.
pub open spec fn id_index(qs: Seq<GameQuestionFull>, id: i32) -> int {
    choose|i: int| 0 <= i < qs.len() && qs[i].question_id == id
}

/// The rows without the one that links question `id`.
pub open spec fn without_id(qs: Seq<GameQuestionFull>, id: i32) -> Seq<GameQuestionFull> {
    if has_id(qs, id) {
        qs.remove(id_index(qs, id))
    } else {
        qs
    }
}

/// Where a row of order `o` goes: after every row of order at most `o`.
pub open spec fn insert_pos(qs: Seq<GameQuestionFull>, o: i32) -> int
    decreases qs.len(),
{
    if qs.len() == 0 {
        0
    } else if qs.last().question_order <= o {
        qs.len() as int
    } else {
        insert_pos(qs.drop_last(), o)
    }
}

/// The row that links `q` at order `o`.
pub open spec fn link_row(q: Question, o: i32) -> GameQuestionFull {
    GameQuestionFull {
        question_id: q.question_id,
        question_text: q.question_text,
        correct_answer: q.correct_answer,
        question_order: o,
    }
}

/// The order that a new link gets: the one given, else one past the highest.
pub open spec fn chosen_order(qs: Seq<GameQuestionFull>, order: Option<i32>) -> i32 {
    match order {
        Some(o) => o,
        None => (max_order_spec(qs) + 1) as i32,
    }
}

/// The order after `max_order`, unless it does not fit in an `i32`.
pub fn next_order(max_order: i32) -> (r: Option<i32>)
    ensures
        max_order < i32::MAX ==> r == Some((max_order + 1) as i32),
        max_order == i32::MAX ==> r is None,
{
    if max_order < i32::MAX {
        Some(max_order + 1)
    } else {
        None
    }
}

/// The questions linked into one game, held in ascending order as a query
/// by order returns them.
#[derive(Debug, Clone)]
pub struct GameQuestionList {
    pub game_id: i32,
    pub questions: Vec<GameQuestionFull>,
}

proof fn lemma_dense_max(qs: Seq<GameQuestionFull>)
    requires
        is_dense(qs),
        qs.len() <= i32::MAX,
    ensures
        max_order_spec(qs) == qs.len(),
    decreases qs.len(),
{
    if qs.len() > 1 {
        lemma_dense_max(qs.drop_last());
    }
}

proof fn lemma_insert_pos(qs: Seq<GameQuestionFull>, o: i32)
    requires
        sorted_by_order(qs),
    ensures
        0 <= insert_pos(qs, o) <= qs.len(),
        forall|i: int| 0 <= i < insert_pos(qs, o) ==> qs[i].question_order <= o,
        forall|i: int| insert_pos(qs, o) <= i < qs.len() ==> qs[i].question_order > o,
    decreases qs.len(),
{
    if qs.len() > 0 {
        let n = qs.len() as int;
        if qs.last().question_order > o {
            let d = qs.drop_last();
            assert(sorted_by_order(d)) by {
                assert forall|i: int, j: int| 0 <= i <= j < d.len() implies d[i].question_order
                    <= d[j].question_order by {
                    assert(d[i] == qs[i] && d[j] == qs[j]);
                }
            }
            lemma_insert_pos(d, o);
            assert forall|i: int| 0 <= i < insert_pos(qs, o) implies qs[i].question_order <= o by {
                assert(qs[i] == d[i]);
            }
            assert forall|i: int| insert_pos(qs, o) <= i < n implies qs[i].question_order > o by {
                if i < n - 1 {
                    assert(qs[i] == d[i]);
                }
            }
        } else {
            assert forall|i: int| 0 <= i < n implies qs[i].question_order <= o by {
                assert(qs[i].question_order <= qs[n - 1].question_order);
            }
        }
    }
}

proof fn lemma_dense_sorted(qs: Seq<GameQuestionFull>)
    requires
        is_dense(qs),
    ensures
        sorted_by_order(qs),
{
}

impl GameQuestionList {
    /// Rows with distinct questions, in ascending order, few enough for an
    /// `i32` order to number.
    pub open spec fn wf(&self) -> bool {
        &&& distinct_ids(self.questions@)
        &&& sorted_by_order(self.questions@)
        &&& self.questions.len() <= i32::MAX
    }

    /// A game with no linked questions.
    pub fn new(game_id: i32) -> (r: GameQuestionList)
        ensures
            r.wf(),
            r.game_id == game_id,
            r.questions@.len() == 0,
    {
        GameQuestionList { game_id, questions: Vec::new() }
    }

    /// The list of a game's rows as a query by order returns them, if they
    /// hold distinct questions in ascending order and are few enough to
    /// number.
    pub fn from_rows(game_id: i32, rows: Vec<GameQuestionFull>) -> (r: Option<GameQuestionList>)
        ensures
            (distinct_ids(rows@) && sorted_by_order(rows@) && rows@.len() <= i32::MAX) <==> r is Some,
            r matches Some(l) ==> l.game_id == game_id && l.questions@ == rows@ && l.wf(),
    {
        if rows.len() > i32::MAX as usize {
            return None;
        }
        let n = rows.len();
        let mut i: usize = 0;
        while i < n
            invariant
                n == rows.len(),
                0 <= i <= n,
                forall|a: int, b: int|
                    0 <= a < i && 0 <= b < n && a != b ==> rows@[a].question_id != rows@[b].question_id,
                forall|a: int, b: int|
                    0 <= a < i && a <= b < n ==> rows@[a].question_order <= rows@[b].question_order,
            decreases n - i,
        {
            let mut j: usize = 0;
            while j < n
                invariant
                    n == rows.len(),
                    i < n,
                    0 <= j <= n,
                    forall|b: int| 0 <= b < j && b != i ==> rows@[i as int].question_id != rows@[b].question_id,
                    forall|b: int| i <= b < j ==> rows@[i as int].question_order <= rows@[b].question_order,
                decreases n - j,
            {
                if j != i && rows[i].question_id == rows[j].question_id {
                    return None;
                }
                if j > i && rows[i].question_order > rows[j].question_order {
                    return None;
                }
                j = j + 1;
            }
            i = i + 1;
        }
        Some(GameQuestionList { game_id, questions: rows })
    }

    /// The highest order in the game, or 0 when no question is linked.
    pub fn max_question_order(&self) -> (r: i32)
        ensures
            r == max_order_spec(self.questions@),
    {
        let n = self.questions.len();
        if n == 0 {
            return 0;
        }
        let mut m: i32 = self.questions[0].question_order;
        let mut i: usize = 1;
        while i < n
            invariant
                n == self.questions.len(),
                1 <= i <= n,
                m == max_order_spec(self.questions@.subrange(0, i as int)),
            decreases n - i,
        {
            assert(self.questions@.subrange(0, i + 1).drop_last() =~= self.questions@.subrange(
                0,
                i as int,
            ));
            if self.questions[i].question_order > m {
                m = self.questions[i].question_order;
            }
            i = i + 1;
        }
        assert(self.questions@.subrange(0, n as int) =~= self.questions@);
        m
    }

    /// Whether question `question_id` is linked into the game.
    pub fn contains(&self, question_id: i32) -> (r: bool)
        ensures
            r == has_id(self.questions@, question_id),
    {
        let mut i: usize = 0;
        while i < self.questions.len()
            invariant
                0 <= i <= self.questions.len(),
                forall|j: int| 0 <= j < i ==> self.questions@[j].question_id != question_id,
            decreases self.questions.len() - i,
        {
            if self.questions[i].question_id == question_id {
                return true;
            }
            i = i + 1;
        }
        false
    }

    /// Links `question` at order `order`, or, when none is given, one past
    /// the highest order. The row goes after every row of an order at most
    /// its own. Returns the order used.
    pub fn link(&mut self, question: &Question, order: Option<i32>) -> (r: Result<i32, LinkError>)
        requires
            old(self).wf(),
        ensures
            final(self).wf(),
            final(self).game_id == old(self).game_id,
            has_id(old(self).questions@, question.question_id) ==> r == Err::<i32, LinkError>(
                LinkError::AlreadyLinked,
            ),
            !has_id(old(self).questions@, question.question_id) && old(self).questions.len()
                == i32::MAX ==> r == Err::<i32, LinkError>(LinkError::TooManyQuestions),
            !has_id(old(self).questions@, question.question_id) && old(self).questions.len()
                < i32::MAX && order is None && max_order_spec(old(self).questions@) == i32::MAX
                ==> r == Err::<i32, LinkError>(LinkError::OrderOverflow),
            r is Err ==> final(self).questions@ == old(self).questions@,
            r matches Ok(o) ==> {
                &&& o == chosen_order(old(self).questions@, order)
                &&& final(self).questions@ == old(self).questions@.insert(
                    insert_pos(old(self).questions@, o),
                    link_row(*question, o),
                )
            },
            !has_id(old(self).questions@, question.question_id) && old(self).questions.len()
                < i32::MAX && (order is Some || max_order_spec(old(self).questions@) < i32::MAX)
                ==> r is Ok,
            is_dense(old(self).questions@) && order is None && r is Ok ==> is_dense(
                final(self).questions@,
            ),
    {
        if self.contains(question.question_id) {
            return Err(LinkError::AlreadyLinked);
        }
        if self.questions.len() >= i32::MAX as usize {
            return Err(LinkError::TooManyQuestions);
        }
        let o: i32 = match order {
            Some(o) => o,
            None => match next_order(self.max_question_order()) {
                Some(o) => o,
                None => {
                    return Err(LinkError::OrderOverflow);
                },
            },
        };
        let ghost old_qs = self.questions@;
        let mut p: usize = self.questions.len();
        assert(old_qs.subrange(0, p as int) =~= old_qs);
        while p > 0 && self.questions[p - 1].question_order > o
            invariant
                self.questions@ == old_qs,
                0 <= p <= old_qs.len(),
                insert_pos(old_qs.subrange(0, p as int), o) == insert_pos(old_qs, o),
            decreases p,
        {
            assert(old_qs.subrange(0, p as int).drop_last() =~= old_qs.subrange(0, p - 1));
            p = p - 1;
        }
        proof {
            if p > 0 {
                assert(old_qs.subrange(0, p as int).last() == old_qs[p - 1]);
            }
            assert(p as int == insert_pos(old_qs, o)) by {
                if p == old_qs.len() {
                    assert(old_qs.subrange(0, p as int) =~= old_qs);
                }
            }
            lemma_insert_pos(old_qs, o);
        }
        let row = GameQuestionFull {
            question_id: question.question_id,
            question_text: question.question_text.clone(),
            correct_answer: question.correct_answer,
            question_order: o,
        };
        self.questions.insert(p, row);
        proof {
            let nq = self.questions@;
            assert(nq == old_qs.insert(p as int, link_row(*question, o)));
            assert forall|i: int, j: int| 0 <= i <= j < nq.len() implies nq[i].question_order
                <= nq[j].question_order by {
                if i < p && j > p {
                    assert(nq[i] == old_qs[i] && nq[j] == old_qs[j - 1]);
                } else if i > p {
                    assert(nq[i] == old_qs[i - 1] && nq[j] == old_qs[j - 1]);
                } else if j < p {
                    assert(nq[i] == old_qs[i] && nq[j] == old_qs[j]);
                } else if i == p && j > p {
                    assert(nq[j] == old_qs[j - 1]);
                } else if j == p && i < p {
                    assert(nq[i] == old_qs[i]);
                }
            }
            assert forall|i: int, j: int|
                0 <= i < nq.len() && 0 <= j < nq.len() && i != j implies nq[i].question_id
                != nq[j].question_id by {
                if i != p && j != p {
                    let oi = if i < p { i } else { i - 1 };
                    let oj = if j < p { j } else { j - 1 };
                    assert(nq[i] == old_qs[oi] && nq[j] == old_qs[oj]);
                } else if i == p {
                    let oj = if j < p { j } else { j - 1 };
                    assert(nq[j] == old_qs[oj]);
                } else {
                    let oi = if i < p { i } else { i - 1 };
                    assert(nq[i] == old_qs[oi]);
                }
            }
            if is_dense(old_qs) && order is None {
                lemma_dense_max(old_qs);
                assert(p == old_qs.len());
                assert forall|j: int| 0 <= j < nq.len() implies nq[j].question_order as int == j
                    + 1 by {
                    if j < p {
                        assert(nq[j] == old_qs[j]);
                    }
                }
            }
        }
        Ok(o)
    }

    /// Unlinks question `question_id` (nothing is removed when it is not
    /// linked), then renumbers the remaining questions `1, 2, 3, ...` in their
    /// order. Returns the writes of that reordering pass.
    pub fn unlink(&mut self, question_id: i32) -> (r: Vec<OrderUpdate>)
        requires
            old(self).wf(),
        ensures
            final(self).wf(),
            final(self).game_id == old(self).game_id,
            r@ == reorder_plan_spec(without_id(old(self).questions@, question_id)),
            final(self).questions@ == apply_plan(without_id(old(self).questions@, question_id), r@),
            is_dense(final(self).questions@),
            order_set(final(self).questions@) == dense_orders(final(self).questions.len() as int),
            final(self).questions.len() == old(self).questions.len() - (if has_id(
                old(self).questions@,
                question_id,
            ) {
                1int
            } else {
                0int
            }),
    {
        let ghost old_qs = self.questions@;
        let mut i: usize = 0;
        while i < self.questions.len() && self.questions[i].question_id != question_id
            invariant
                self.questions@ == old_qs,
                0 <= i <= old_qs.len(),
                forall|j: int| 0 <= j < i ==> old_qs[j].question_id != question_id,
            decreases old_qs.len() - i,
        {
            i = i + 1;
        }
        if i < self.questions.len() {
            proof {
                assert(old_qs[i as int].question_id == question_id);
                assert(has_id(old_qs, question_id));
                let k = id_index(old_qs, question_id);
                assert(k == i as int);
            }
            self.questions.remove(i);
        }
        let ghost rest = self.questions@;
        assert(rest == without_id(old_qs, question_id));
        proof {
            assert(distinct_ids(rest)) by {
                if has_id(old_qs, question_id) {
                    assert forall|a: int, b: int|
                        0 <= a < rest.len() && 0 <= b < rest.len() && a != b implies rest[a].question_id
                        != rest[b].question_id by {
                        let oa = if a < i { a } else { a + 1 };
                        let ob = if b < i { b } else { b + 1 };
                        assert(rest[a] == old_qs[oa] && rest[b] == old_qs[ob]);
                    }
                }
            }
        }
        let plan = reorder_plan(&self.questions);
        let renumbered = apply_order_updates(&self.questions, &plan);
        proof {
            lemma_reorder_makes_dense(rest);
            lemma_dense_sorted(renumbered@);
            assert(distinct_ids(renumbered@)) by {
                assert forall|a: int, b: int|
                    0 <= a < renumbered@.len() && 0 <= b < renumbered@.len() && a != b implies renumbered@[a].question_id
                    != renumbered@[b].question_id by {
                    assert(renumbered@[a].question_id == rest[a].question_id);
                    assert(renumbered@[b].question_id == rest[b].question_id);
                }
            }
        }
        self.questions = renumbered;
        proof {
            lemma_dense_order_set(self.questions@);
        }
        plan
    }
}

} // verus!
