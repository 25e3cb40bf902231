use vstd::prelude::*;

use crate::models::GameQuestionFull;

verus! {

/// One write of the reordering pass: give `question_id` the position
/// `new_order` in its game.
#[derive(Debug, Clone, Copy, PartialEq, Eq, Structural)]
pub struct OrderUpdate {
    pub question_id: i32,
    pub new_order: i32,
}

/// The writes that renumber a game's questions, listed in their current
/// order, to `1, 2, 3, ...`: one for each question whose order differs from
/// its position, in list order.
pub open spec fn reorder_plan_spec(qs: Seq<GameQuestionFull>) -> Seq<OrderUpdate>
    decreases qs.len(),
{
    if qs.len() == 0 {
        Seq::empty()
    } else {
        let rest = reorder_plan_spec(qs.drop_last());
        if qs.last().question_order as int != qs.len() {
            rest.push(OrderUpdate { question_id: qs.last().question_id, new_order: qs.len() as i32 })
        } else {
            rest
        }
    }
}

/// The order that a question ends with once `us` is applied in sequence
/// (the last write to its id wins), starting from `o`.
pub open spec fn order_after(us: Seq<OrderUpdate>, id: i32, o: i32) -> i32
    decreases us.len(),
{
    if us.len() == 0 {
        o
    } else if us.last().question_id == id {
        us.last().new_order
    } else {
        order_after(us.drop_last(), id, o)
    }
}

/// A linked question with another order.
pub open spec fn with_order(q: GameQuestionFull, o: i32) -> GameQuestionFull {
    GameQuestionFull {
        question_id: q.question_id,
        question_text: q.question_text,
        correct_answer: q.correct_answer,
        question_order: o,
    }
}

/// The rows after each update is executed as
/// `SET question_order = new_order WHERE question_id = id`.
pub open spec fn apply_plan(qs: Seq<GameQuestionFull>, us: Seq<OrderUpdate>) -> Seq<GameQuestionFull> {
    Seq::new(
        qs.len(),
        |j: int| with_order(qs[j], order_after(us, qs[j].question_id, qs[j].question_order)),
    )
}

/// No two rows link the same question.
pub open spec fn distinct_ids(qs: Seq<GameQuestionFull>) -> bool {
    forall|i: int, j: int|
        0 <= i < qs.len() && 0 <= j < qs.len() && i != j ==> qs[i].question_id
            != qs[j].question_id
}

/// The set of order values among the rows.
pub open spec fn order_set(qs: Seq<GameQuestionFull>) -> Set<int> {
    Set::new(|k: int| exists|j: int| 0 <= j < qs.len() && qs[j].question_order as int == k)
}

/// The orders `1..=n`.
pub open spec fn dense_orders(n: int) -> Set<int> {
    Set::new(|k: int| 1 <= k <= n)
}

/// Each row's order is its 1-based position.
pub open spec fn is_dense(qs: Seq<GameQuestionFull>) -> bool {
    forall|j: int| 0 <= j < qs.len() ==> qs[j].question_order as int == j + 1
}

/// Computes the writes of a reordering pass over a game's questions, given in
/// ascending order of their current position. Questions already in place are
/// skipped.
pub fn reorder_plan(questions: &Vec<GameQuestionFull>) -> (r: Vec<OrderUpdate>)
    requires
        questions.len() <= i32::MAX,
    ensures
        r@ == reorder_plan_spec(questions@),
{
    let mut r: Vec<OrderUpdate> = Vec::new();
    let n = questions.len();
    let mut i: usize = 0;
    while i < n
        invariant
            n == questions.len(),
            n <= i32::MAX,
            0 <= i <= n,
            r@ == reorder_plan_spec(questions@.subrange(0, i as int)),
        decreases n - i,
    {
        let pos: i32 = (i + 1) as i32;
        let q = &questions[i];
        assert(questions@.subrange(0, i + 1).drop_last() =~= questions@.subrange(0, i as int));
        if q.question_order != pos {
            r.push(OrderUpdate { question_id: q.question_id, new_order: pos });
        }
        i = i + 1;
    }
    assert(questions@.subrange(0, n as int) =~= questions@);
    r
}

/// The order that `id` ends with once `updates` are executed in sequence,
/// starting from `o`.
pub fn final_order(updates: &Vec<OrderUpdate>, id: i32, o: i32) -> (r: i32)
    ensures
        r == order_after(updates@, id, o),
{
    let mut k: usize = updates.len();
    assert(updates@.subrange(0, k as int) =~= updates@);
    while k > 0
        invariant
            k <= updates.len(),
            order_after(updates@.subrange(0, k as int), id, o) == order_after(updates@, id, o),
        decreases k,
    {
        assert(updates@.subrange(0, k as int).drop_last() =~= updates@.subrange(0, k - 1));
        if updates[k - 1].question_id == id {
            return updates[k - 1].new_order;
        }
        k = k - 1;
    }
    o
}

/// The rows of a game after `updates` are executed in sequence.
pub fn apply_order_updates(questions: &Vec<GameQuestionFull>, updates: &Vec<OrderUpdate>) -> (r:
    Vec<GameQuestionFull>)
    ensures
        r@ == apply_plan(questions@, updates@),
{
    let mut r: Vec<GameQuestionFull> = Vec::new();
    let n = questions.len();
    let mut j: usize = 0;
    while j < n
        invariant
            n == questions.len(),
            0 <= j <= n,
            r@ =~= apply_plan(questions@, updates@).subrange(0, j as int),
        decreases n - j,
    {
        let q = &questions[j];
        let o = final_order(updates, q.question_id, q.question_order);
        r.push(
            GameQuestionFull {
                question_id: q.question_id,
                question_text: q.question_text.clone(),
                correct_answer: q.correct_answer,
                question_order: o,
            },
        );
        j = j + 1;
    }
    r
}

proof fn lemma_order_after_cases(us: Seq<OrderUpdate>, id: i32, o: i32, v: i32)
    requires
        forall|k: int| 0 <= k < us.len() && us[k].question_id == id ==> us[k].new_order == v,
    ensures
        order_after(us, id, o) == o || order_after(us, id, o) == v,
        (exists|k: int| 0 <= k < us.len() && us[k].question_id == id) ==> order_after(us, id, o)
            == v,
    decreases us.len(),
{
    if us.len() > 0 {
        lemma_order_after_cases(us.drop_last(), id, o, v);
        if us.last().question_id != id {
            if exists|k: int| 0 <= k < us.len() && us[k].question_id == id {
                let k = choose|k: int| 0 <= k < us.len() && us[k].question_id == id;
                assert(us.drop_last()[k].question_id == id);
            }
        }
    }
}

proof fn lemma_plan_entries(qs: Seq<GameQuestionFull>)
    requires
        qs.len() <= i32::MAX,
    ensures
        forall|k: int|
            0 <= k < reorder_plan_spec(qs).len() ==> exists|i: int|
                0 <= i < qs.len() && (#[trigger] reorder_plan_spec(qs)[k]).question_id
                    == qs[i].question_id && reorder_plan_spec(qs)[k].new_order == i + 1,
        forall|i: int|
            0 <= i < qs.len() && qs[i].question_order as int != i + 1 ==> exists|k: int|
                0 <= k < reorder_plan_spec(qs).len() && reorder_plan_spec(qs)[k] == (
                OrderUpdate { question_id: qs[i].question_id, new_order: (i + 1) as i32 }),
    decreases qs.len(),
{
    if qs.len() > 0 {
        let rest = qs.drop_last();
        lemma_plan_entries(rest);
        let p = reorder_plan_spec(qs);
        let pr = reorder_plan_spec(rest);
        assert forall|k: int| 0 <= k < p.len() implies exists|i: int|
            0 <= i < qs.len() && (#[trigger] p[k]).question_id == qs[i].question_id
                && p[k].new_order == i + 1 by {
            if k < pr.len() {
                let i = choose|i: int|
                    0 <= i < rest.len() && (#[trigger] pr[k]).question_id == rest[i].question_id
                        && pr[k].new_order == i + 1;
                assert(qs[i] == rest[i]);
            } else {
                assert(p[k].question_id == qs[qs.len() - 1].question_id);
            }
        }
        assert forall|i: int| 0 <= i < qs.len() && qs[i].question_order as int != i + 1 implies exists|k: int|
            0 <= k < p.len() && p[k] == (
            OrderUpdate { question_id: qs[i].question_id, new_order: (i + 1) as i32 }) by {
            if i < rest.len() {
                assert(rest[i] == qs[i]);
                let k = choose|k: int|
                    0 <= k < pr.len() && pr[k] == (
                    OrderUpdate { question_id: rest[i].question_id, new_order: (i + 1) as i32 });
                assert(p[k] == pr[k]);
            } else {
                assert(p[p.len() - 1] == (
                OrderUpdate { question_id: qs[i].question_id, new_order: (i + 1) as i32 }));
            }
        }
    }
}

/// Reordering restores the dense order invariant: whatever the orders of a
/// game's questions were, once the reordering writes are executed the
/// question at position `j` has order `j + 1`, so the set of orders is
/// exactly `{1, ..., n}`.
pub proof fn lemma_reorder_makes_dense(qs: Seq<GameQuestionFull>)
    requires
        qs.len() <= i32::MAX,
        distinct_ids(qs),
    ensures
        is_dense(apply_plan(qs, reorder_plan_spec(qs))),
        order_set(apply_plan(qs, reorder_plan_spec(qs))) == dense_orders(qs.len() as int),
{
    let p = reorder_plan_spec(qs);
    let r = apply_plan(qs, p);
    lemma_plan_entries(qs);
    assert forall|j: int| 0 <= j < r.len() implies r[j].question_order as int == j + 1 by {
        let id = qs[j].question_id;
        assert forall|k: int| 0 <= k < p.len() && p[k].question_id == id implies p[k].new_order
            == (j + 1) as i32 by {
            let i = choose|i: int|
                0 <= i < qs.len() && (#[trigger] p[k]).question_id == qs[i].question_id
                    && p[k].new_order == i + 1;
            assert(i == j);
        }
        lemma_order_after_cases(p, id, qs[j].question_order, (j + 1) as i32);
        if qs[j].question_order as int != j + 1 {
            let k = choose|k: int|
                0 <= k < p.len() && p[k] == (
                OrderUpdate { question_id: qs[j].question_id, new_order: (j + 1) as i32 });
            assert(p[k].question_id == id);
        }
    }
    lemma_dense_order_set(r);
}

/// A dense list has the orders `{1, ..., n}`.
pub proof fn lemma_dense_order_set(qs: Seq<GameQuestionFull>)
    requires
        is_dense(qs),
    ensures
        order_set(qs) == dense_orders(qs.len() as int),
{
    assert forall|k: int| #[trigger] dense_orders(qs.len() as int).contains(k) implies order_set(
        qs,
    ).contains(k) by {
        assert(qs[k - 1].question_order as int == k);
    }
    assert(order_set(qs) =~= dense_orders(qs.len() as int));
}

/// The writes that move the rows after position `k` of a dense list one
/// place up, once the row at `k` is gone.
pub open spec fn shifted_tail(qs: Seq<GameQuestionFull>, k: int) -> Seq<OrderUpdate> {
    Seq::new(
        (qs.len() - 1 - k) as nat,
        |i: int| OrderUpdate { question_id: qs[k + 1 + i].question_id, new_order: (k + 1 + i) as i32 },
    )
}

proof fn lemma_unlink_prefix(qs: Seq<GameQuestionFull>, k: int, m: int)
    requires
        is_dense(qs),
        0 <= k < qs.len() <= i32::MAX,
        0 <= m < qs.len(),
    ensures
        reorder_plan_spec(qs.remove(k).subrange(0, m)) == (if m <= k {
            Seq::<OrderUpdate>::empty()
        } else {
            shifted_tail(qs, k).subrange(0, m - k)
        }),
    decreases m,
{
    let r = qs.remove(k);
    if m > 0 {
        lemma_unlink_prefix(qs, k, m - 1);
        assert(r.subrange(0, m).drop_last() =~= r.subrange(0, m - 1));
        if m <= k {
            assert(r[m - 1] == qs[m - 1]);
        } else {
            assert(r[m - 1] == qs[m]);
            assert(shifted_tail(qs, k).subrange(0, m - k) =~= shifted_tail(qs, k).subrange(
                0,
                m - 1 - k,
            ).push(OrderUpdate { question_id: qs[m].question_id, new_order: m as i32 }));
        }
    } else {
        assert(r.subrange(0, 0) =~= Seq::<GameQuestionFull>::empty());
    }
}

/// Unlinking the question at position `k` of a dense list of `n` renumbers
/// exactly the `n - 1 - k` questions after it, each one place up, and writes
/// nothing for the questions before it.
pub proof fn lemma_unlink_renumbers_tail(qs: Seq<GameQuestionFull>, k: int)
    requires
        is_dense(qs),
        0 <= k < qs.len() <= i32::MAX,
    ensures
        reorder_plan_spec(qs.remove(k)) == shifted_tail(qs, k),
        reorder_plan_spec(qs.remove(k)).len() == qs.len() - 1 - k,
{
    lemma_unlink_prefix(qs, k, qs.len() - 1);
    assert(qs.remove(k).subrange(0, qs.len() - 1) =~= qs.remove(k));
    if qs.len() - 1 <= k {
        assert(shifted_tail(qs, k) =~= Seq::<OrderUpdate>::empty());
    } else {
        assert(shifted_tail(qs, k).subrange(0, qs.len() - 1 - k) =~= shifted_tail(qs, k));
    }
}

} // verus!
