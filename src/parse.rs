use vstd::prelude::*;
use vstd::string::*;

verus! {

/// A blank that surrounds a typed field: space, tab, carriage return or
/// line feed.
pub open spec fn is_blank(c: char) -> bool {
    c == ' ' || c == '\t' || c == '\r' || c == '\n'
}

pub open spec fn is_digit(c: char) -> bool {
    '0' <= c && c <= '9'
}

pub open spec fn all_digits(s: Seq<char>) -> bool {
    s.len() > 0 && forall|i: int| 0 <= i < s.len() ==> is_digit(#[trigger] s[i])
}

/// The value of a string of decimal digits.
pub open spec fn digits_value(s: Seq<char>) -> int
    decreases s.len(),
{
    if s.len() == 0 {
        0
    } else {
        digits_value(s.drop_last()) * 10 + (s.last() as u32 - '0' as u32)
    }
}

/// The integer that `s` writes: digits, optionally after one `+` or `-`.
pub open spec fn id_value(s: Seq<char>) -> Option<int> {
    if s.len() > 0 && s[0] == '-' && all_digits(s.drop_first()) {
        Some(-digits_value(s.drop_first()))
    } else if s.len() > 0 && s[0] == '+' && all_digits(s.drop_first()) {
        Some(digits_value(s.drop_first()))
    } else if all_digits(s) {
        Some(digits_value(s))
    } else {
        None
    }
}

/// The `i32` that `s` writes, if it writes one in range.
pub open spec fn parse_id_spec(s: Seq<char>) -> Option<i32> {
    match id_value(s) {
        Some(v) => if i32::MIN <= v <= i32::MAX {
            Some(v as i32)
        } else {
            None
        },
        None => None,
    }
}

/// `s` without its leading blanks.
pub open spec fn trim_start(s: Seq<char>) -> Seq<char>
    decreases s.len(),
{
    if s.len() > 0 && is_blank(s[0]) {
        trim_start(s.drop_first())
    } else {
        s
    }
}

/// `s` without its trailing blanks.
pub open spec fn trim_end(s: Seq<char>) -> Seq<char>
    decreases s.len(),
{
    if s.len() > 0 && is_blank(s.last()) {
        trim_end(s.drop_last())
    } else {
        s
    }
}

/// `s` without surrounding blanks.
pub open spec fn trim(s: Seq<char>) -> Seq<char> {
    trim_end(trim_start(s))
}

/// The comma-separated fields of `s`; there is always at least one.
pub open spec fn split_fields(s: Seq<char>) -> Seq<Seq<char>>
    decreases s.len(),
{
    if s.len() == 0 {
        seq![Seq::empty()]
    } else {
        let f = split_fields(s.drop_last());
        if s.last() == ',' {
            f.push(Seq::empty())
        } else {
            f.update(f.len() - 1, f.last().push(s.last()))
        }
    }
}

/// The ids written by the fields, in order, skipping the fields that do not
/// write one.
pub open spec fn ids_of_fields(fs: Seq<Seq<char>>) -> Seq<i32>
    decreases fs.len(),
{
    if fs.len() == 0 {
        Seq::empty()
    } else {
        let rest = ids_of_fields(fs.drop_last());
        match parse_id_spec(trim(fs.last())) {
            Some(v) => rest.push(v),
            None => rest,
        }
    }
}

/// The ids of a comma-separated list; malformed fields are dropped.
pub open spec fn order_list_spec(s: Seq<char>) -> Seq<i32> {
    ids_of_fields(split_fields(s))
}

proof fn lemma_split_nonempty(s: Seq<char>)
    ensures
        split_fields(s).len() >= 1,
    decreases s.len(),
{
    if s.len() > 0 {
        lemma_split_nonempty(s.drop_last());
    }
}

proof fn lemma_digits_grow(s: Seq<char>, k: int)
    requires
        0 <= k <= s.len(),
        forall|i: int| 0 <= i < s.len() ==> is_digit(#[trigger] s[i]),
    ensures
        digits_value(s) >= digits_value(s.subrange(0, k)),
        digits_value(s.subrange(0, k)) >= 0,
    decreases s.len(),
{
    if s.len() > 0 {
        let d = s.drop_last();
        if k == s.len() {
            assert(s.subrange(0, k) =~= s);
            lemma_digits_grow(d, 0);
            assert(d.subrange(0, 0) =~= s.subrange(0, 0));
        } else {
            lemma_digits_grow(d, k);
            assert(d.subrange(0, k) =~= s.subrange(0, k));
            lemma_digits_grow(d, d.len() as int);
            assert(d.subrange(0, d.len() as int) =~= d);
        }
    } else {
        assert(s.subrange(0, k) =~= s);
    }
}

/// The value of the digits `cs[from..]`, if all are digits and the value is
/// at most `limit`.
fn digits_upto(cs: &Vec<char>, from: usize, limit: u64) -> (r: Option<u64>)
    requires
        from <= cs.len(),
        limit <= 4_000_000_000,
    ensures
        ({
            let t = cs@.subrange(from as int, cs@.len() as int);
            match r {
                Some(v) => all_digits(t) && v == digits_value(t) && v <= limit,
                None => !all_digits(t) || digits_value(t) > limit,
            }
        }),
{
    let ghost t = cs@.subrange(from as int, cs@.len() as int);
    if from == cs.len() {
        return None;
    }
    let mut acc: u64 = 0;
    let mut i: usize = from;
    while i < cs.len()
        invariant
            from <= i <= cs.len(),
            t == cs@.subrange(from as int, cs@.len() as int),
            forall|j: int| from <= j < i ==> is_digit(#[trigger] cs@[j]),
            acc == digits_value(cs@.subrange(from as int, i as int)),
            acc <= limit,
            limit <= 4_000_000_000,
        decreases cs.len() - i,
    {
        let c = cs[i];
        if !('0' <= c && c <= '9') {
            assert(!is_digit(t[i - from]));
            return None;
        }
        assert(cs@.subrange(from as int, i + 1).drop_last() =~= cs@.subrange(from as int, i as int));
        let d = (c as u32 - '0' as u32) as u64;
        assert(d <= 9);
        assert(acc * 10 <= 40_000_000_000) by (nonlinear_arith)
            requires
                acc <= 4_000_000_000,
        ;
        let next = acc * 10 + d;
        if next > limit {
            proof {
                if all_digits(t) {
                    lemma_digits_grow(t, i + 1 - from);
                    assert(t.subrange(0, i + 1 - from) =~= cs@.subrange(from as int, i + 1));
                }
            }
            return None;
        }
        acc = next;
        i = i + 1;
    }
    assert(cs@.subrange(from as int, i as int) =~= t);
    Some(acc)
}

/// Reads an `i32` written in decimal, optionally after one `+` or `-`.
pub fn parse_id_chars(cs: &Vec<char>) -> (r: Option<i32>)
    ensures
        r == parse_id_spec(cs@),
{
    let n = cs.len();
    if n > 0 && cs[0] == '-' {
        assert(cs@.subrange(1, n as int) =~= cs@.drop_first());
        match digits_upto(cs, 1, 2147483648) {
            Some(v) => Some((0 - v as i64) as i32),
            None => None,
        }
    } else if n > 0 && cs[0] == '+' {
        assert(cs@.subrange(1, n as int) =~= cs@.drop_first());
        match digits_upto(cs, 1, 2147483647) {
            Some(v) => Some(v as i32),
            None => None,
        }
    } else {
        assert(cs@.subrange(0, n as int) =~= cs@);
        match digits_upto(cs, 0, 2147483647) {
            Some(v) => Some(v as i32),
            None => None,
        }
    }
}

/// The characters of `s`.
pub fn chars_of(s: &str) -> (r: Vec<char>)
    ensures
        r@ == s@,
{
    let n = s.unicode_len();
    let mut r: Vec<char> = Vec::new();
    let mut i: usize = 0;
    while i < n
        invariant
            n == s@.len(),
            0 <= i <= n,
            r@ =~= s@.subrange(0, i as int),
        decreases n - i,
    {
        r.push(s.get_char(i));
        i = i + 1;
    }
    r
}

/// Reads a typed id: an `i32` in decimal, optionally after one `+` or `-`.
pub fn parse_id(line: &str) -> (r: Option<i32>)
    ensures
        r == parse_id_spec(line@),
{
    let cs = chars_of(line);
    parse_id_chars(&cs)
}

/// The field without surrounding blanks.
pub fn trim_chars(cs: &Vec<char>) -> (r: Vec<char>)
    ensures
        r@ == trim(cs@),
{
    let n = cs.len();
    let mut a: usize = 0;
    assert(cs@.subrange(0, n as int) =~= cs@);
    while a < n && (cs[a] == ' ' || cs[a] == '\t' || cs[a] == '\r' || cs[a] == '\n')
        invariant
            n == cs.len(),
            0 <= a <= n,
            trim_start(cs@.subrange(a as int, n as int)) == trim_start(cs@),
        decreases n - a,
    {
        assert(cs@.subrange(a as int, n as int).drop_first() =~= cs@.subrange(a + 1, n as int));
        a = a + 1;
    }
    let ghost ts = cs@.subrange(a as int, n as int);
    assert(trim_start(ts) == ts);
    let mut b: usize = n;
    assert(ts.subrange(0, (b - a) as int) =~= ts);
    while b > a && (cs[b - 1] == ' ' || cs[b - 1] == '\t' || cs[b - 1] == '\r' || cs[b - 1] == '\n')
        invariant
            a <= b <= n,
            n == cs.len(),
            ts == cs@.subrange(a as int, n as int),
            trim_end(ts.subrange(0, (b - a) as int)) == trim_end(ts),
        decreases b,
    {
        assert(ts.subrange(0, (b - a) as int).drop_last() =~= ts.subrange(0, (b - 1 - a) as int));
        b = b - 1;
    }
    let mut r: Vec<char> = Vec::new();
    let mut k: usize = a;
    while k < b
        invariant
            a <= k <= b <= n,
            n == cs.len(),
            r@ =~= cs@.subrange(a as int, k as int),
        decreases b - k,
    {
        r.push(cs[k]);
        k = k + 1;
    }
    assert(r@ =~= ts.subrange(0, (b - a) as int));
    r
}

/// Reads an operator's new order: a comma-separated list of question ids.
/// Each field is read without surrounding blanks; a field that is not an
/// `i32` in decimal is dropped.
pub fn parse_order_list(line: &str) -> (r: Vec<i32>)
    ensures
        r@ == order_list_spec(line@),
{
    let cs = chars_of(line);
    let n = cs.len();
    let mut ids: Vec<i32> = Vec::new();
    let mut cur: Vec<char> = Vec::new();
    let ghost mut done: Seq<Seq<char>> = Seq::empty();
    let mut i: usize = 0;
    while i < n
        invariant
            n == cs.len(),
            cs@ == line@,
            0 <= i <= n,
            split_fields(cs@.subrange(0, i as int)) == done.push(cur@),
            ids@ == ids_of_fields(done),
        decreases n - i,
    {
        let c = cs[i];
        let ghost pre = cs@.subrange(0, i as int);
        assert(cs@.subrange(0, i + 1).drop_last() =~= pre);
        proof {
            lemma_split_nonempty(pre);
        }
        if c == ',' {
            let t = trim_chars(&cur);
            let p = parse_id_chars(&t);
            proof {
                assert(done.push(cur@).drop_last() =~= done);
            }
            if let Some(v) = p {
                ids.push(v);
            }
            proof {
                done = done.push(cur@);
            }
            cur = Vec::new();
            assert(split_fields(cs@.subrange(0, i + 1)) =~= done.push(cur@));
        } else {
            cur.push(c);
            assert(split_fields(cs@.subrange(0, i + 1)) =~= done.push(cur@));
        }
        i = i + 1;
    }
    let t = trim_chars(&cur);
    let p = parse_id_chars(&t);
    assert(cs@.subrange(0, n as int) =~= cs@);
    assert(done.push(cur@).drop_last() =~= done);
    if let Some(v) = p {
        ids.push(v);
    }
    ids
}

} // verus!
