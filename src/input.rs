use vstd::prelude::*;
use vstd::string::*;

use crate::models::GameQuestionFull;
use crate::ordering::OrderUpdate;

verus! {

/// Whether `c` is `lower` or its capital `upper`.
pub open spec fn either_case(c: char, lower: char, upper: char) -> bool {
    c == lower || c == upper
}

/// Whether `s` is the word `true` in any mix of upper and lower case.
pub open spec fn is_true_word(s: Seq<char>) -> bool {
    &&& s.len() == 4
    &&& either_case(s[0], 't', 'T')
    &&& either_case(s[1], 'r', 'R')
    &&& either_case(s[2], 'u', 'U')
    &&& either_case(s[3], 'e', 'E')
}

/// Reads a trimmed true/false answer: the word `true`, in any case, is true,
/// and anything else is false.
pub fn answer_from_input(line: &str) -> (r: bool)
    ensures
        r == is_true_word(line@),
{
    if line.unicode_len() != 4 {
        return false;
    }
    let c0 = line.get_char(0);
    let c1 = line.get_char(1);
    let c2 = line.get_char(2);
    let c3 = line.get_char(3);
    (c0 == 't' || c0 == 'T') && (c1 == 'r' || c1 == 'R') && (c2 == 'u' || c2 == 'U') && (c3 == 'e'
        || c3 == 'E')
}

/// Reads a trimmed optional description: an empty line means none.
pub fn description_from_input(line: String) -> (r: Option<String>)
    ensures
        line@.len() == 0 ==> r is None,
        line@.len() > 0 ==> r == Some(line),
{
    if line.as_str().is_empty() {
        None
    } else {
        Some(line)
    }
}

/// The writes that put the questions in the order listed: the id at
/// position `i` gets order `i + 1`.
pub open spec fn listed_order_spec(ids: Seq<i32>) -> Seq<OrderUpdate> {
    Seq::new(ids.len(), |i: int| OrderUpdate { question_id: ids[i], new_order: (i + 1) as i32 })
}

/// The writes for an operator's new order, given as a list of question ids:
/// the id at position `i` gets order `i + 1`.
pub fn listed_order(ids: &Vec<i32>) -> (r: Vec<OrderUpdate>)
    requires
        ids.len() <= i32::MAX,
    ensures
        r@ == listed_order_spec(ids@),
{
    let mut r: Vec<OrderUpdate> = Vec::new();
    let mut i: usize = 0;
    while i < ids.len()
        invariant
            ids.len() <= i32::MAX,
            0 <= i <= ids.len(),
            r@ =~= listed_order_spec(ids@).subrange(0, i as int),
        decreases ids.len() - i,
    {
        r.push(OrderUpdate { question_id: ids[i], new_order: (i + 1) as i32 });
        i = i + 1;
    }
    r
}

/// Whether `ids` lists each of the game's questions exactly once, and nothing
/// else.
pub open spec fn lists_every_question(ids: Seq<i32>, qs: Seq<GameQuestionFull>) -> bool {
    &&& ids.len() == qs.len()
    &&& ids.no_duplicates()
    &&& forall|j: int| 0 <= j < qs.len() ==> ids.contains(#[trigger] qs[j].question_id)
}

/// Whether `id` occurs in `ids`.
pub fn contains_id(ids: &Vec<i32>, id: i32) -> (r: bool)
    ensures
        r == ids@.contains(id),
{
    let mut i: usize = 0;
    while i < ids.len()
        invariant
            0 <= i <= ids.len(),
            forall|k: int| 0 <= k < i ==> ids@[k] != id,
        decreases ids.len() - i,
    {
        if ids[i] == id {
            return true;
        }
        i = i + 1;
    }
    false
}

/// Checks an operator's new order before it is applied: it must list each
/// of the game's questions exactly once, and nothing else.
pub fn is_full_reordering(ids: &Vec<i32>, questions: &Vec<GameQuestionFull>) -> (r: bool)
    ensures
        r == lists_every_question(ids@, questions@),
{
    if ids.len() != questions.len() {
        return false;
    }
    let mut i: usize = 0;
    while i < ids.len()
        invariant
            0 <= i <= ids.len(),
            forall|a: int, b: int| 0 <= a < i && 0 <= b < ids.len() && a != b ==> ids@[a] != ids@[b],
        decreases ids.len() - i,
    {
        let mut j: usize = i + 1;
        while j < ids.len()
            invariant
                i < ids.len(),
                i + 1 <= j <= ids.len(),
                forall|b: int| i < b < j ==> ids@[i as int] != ids@[b],
            decreases ids.len() - j,
        {
            if ids[i] == ids[j] {
                return false;
            }
            j = j + 1;
        }
        i = i + 1;
    }
    let mut k: usize = 0;
    while k < questions.len()
        invariant
            0 <= k <= questions.len(),
            ids@.no_duplicates(),
            ids@.len() == questions@.len(),
            forall|j: int| 0 <= j < k ==> ids@.contains(#[trigger] questions@[j].question_id),
        decreases questions.len() - k,
    {
        if !contains_id(ids, questions[k].question_id) {
            return false;
        }
        k = k + 1;
    }
    true
}

} // verus!
