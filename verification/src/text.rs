use vstd::prelude::*;

verus! {

/// `sub` occurs in `s` starting at character index `i`.
pub open spec fn contains_at(s: Seq<char>, sub: Seq<char>, i: int) -> bool {
    &&& 0 <= i
    &&& i + sub.len() <= s.len()
    &&& forall|j: int| 0 <= j < sub.len() ==> s[i + j] == sub[j]
}

/// Index of the first occurrence of `sub` in `s` at or after `from`, if any.
pub open spec fn find_from(s: Seq<char>, sub: Seq<char>, from: int) -> Option<int>
    decreases s.len() - from,
{
    if from < 0 || from + sub.len() > s.len() {
        None
    } else if contains_at(s, sub, from) {
        Some(from)
    } else {
        find_from(s, sub, from + 1)
    }
}

/// `find_from` returns the least occurrence at or after `from`, or reports
/// that there is none.
pub proof fn lemma_find_from_first(s: Seq<char>, sub: Seq<char>, from: int)
    requires
        0 <= from,
    ensures
        match find_from(s, sub, from) {
            Some(i) => {
                &&& from <= i
                &&& contains_at(s, sub, i)
                &&& forall|j: int| from <= j < i ==> !contains_at(s, sub, j)
            },
            None => forall|j: int| from <= j ==> !contains_at(s, sub, j),
        },
    decreases s.len() - from,
{
    if from + sub.len() > s.len() {
        assert forall|j: int| from <= j implies !contains_at(s, sub, j) by {}
    } else if contains_at(s, sub, from) {
    } else {
        lemma_find_from_first(s, sub, from + 1);
    }
}

/// Finds the character index of the first occurrence of `sub` in `s`.
pub fn find_first(s: &str, sub: &str) -> (r: Option<usize>)
    ensures
        match r {
            Some(i) => find_from(s@, sub@, 0) == Some(i as int),
            None => find_from(s@, sub@, 0) is None,
        },
{
    let s_len = s.unicode_len();
    let sub_len = sub.unicode_len();
    if sub_len > s_len {
        return None;
    }
    let mut i: usize = 0;
    while i <= s_len - sub_len
        invariant
            sub_len <= s_len,
            s_len == s@.len(),
            sub_len == sub@.len(),
            0 <= i <= s_len - sub_len + 1,
            find_from(s@, sub@, 0) == find_from(s@, sub@, i as int),
        decreases s_len - sub_len - i + 1,
    {
        let mut k: usize = 0;
        let mut matched = true;
        while k < sub_len
            invariant
                sub_len <= s_len,
                s_len == s@.len(),
                sub_len == sub@.len(),
                i + sub_len <= s_len,
                0 <= k <= sub_len,
                matched == (forall|j: int| 0 <= j < k ==> s@[i + j] == sub@[j]),
            decreases sub_len - k,
        {
            if s.get_char(i + k) != sub.get_char(k) {
                matched = false;
            }
            k = k + 1;
        }
        if matched {
            assert(contains_at(s@, sub@, i as int));
            return Some(i);
        }
        proof {
            let ii = i as int;
            assert(!contains_at(s@, sub@, ii));
            assert(find_from(s@, sub@, ii) == find_from(s@, sub@, ii + 1));
            assert(sub_len > 0) by {
                if sub@.len() == 0 {
                    assert(forall|j: int| 0 <= j < sub@.len() ==> s@[ii + j] == sub@[j]);
                }
            }
        }
        i = i + 1;
    }
    proof {
        let ii = i as int;
        assert(ii + sub@.len() > s@.len());
        assert(find_from(s@, sub@, ii) is None);
    }
    None
}

/// Strict lexicographic order on character sequences by code point, the order
/// in which a synonym set is kept.
pub open spec fn lex_lt(a: Seq<char>, b: Seq<char>) -> bool
    decreases a.len(),
{
    if b.len() == 0 {
        false
    } else if a.len() == 0 {
        true
    } else if a[0] != b[0] {
        (a[0] as int) < (b[0] as int)
    } else {
        lex_lt(a.drop_first(), b.drop_first())
    }
}

/// The order is total: two sequences compare one way, the other, or are equal.
pub proof fn lemma_lex_lt_total(a: Seq<char>, b: Seq<char>)
    ensures
        lex_lt(a, b) || lex_lt(b, a) || a == b,
    decreases a.len(),
{
    if b.len() == 0 {
        if a.len() == 0 {
            assert(a =~= b);
        }
    } else if a.len() == 0 {
    } else if a[0] == b[0] {
        lemma_lex_lt_total(a.drop_first(), b.drop_first());
        assert(lex_lt(a, b) == lex_lt(a.drop_first(), b.drop_first()));
        assert(lex_lt(b, a) == lex_lt(b.drop_first(), a.drop_first()));
        if !lex_lt(a, b) && !lex_lt(b, a) {
            assert(a.drop_first() == b.drop_first());
            assert forall|i: int| 0 <= i < a.len() implies a[i] == b[i] by {
                if i > 0 {
                    assert(a.drop_first()[i - 1] == b.drop_first()[i - 1]);
                }
            }
            assert(a =~= b);
        }
    }
}

/// The order is transitive.
pub proof fn lemma_lex_lt_trans(a: Seq<char>, b: Seq<char>, c: Seq<char>)
    requires
        lex_lt(a, b),
        lex_lt(b, c),
    ensures
        lex_lt(a, c),
    decreases a.len(),
{
    if c.len() == 0 || b.len() == 0 || a.len() == 0 {
    } else if a[0] == b[0] && b[0] == c[0] {
        lemma_lex_lt_trans(a.drop_first(), b.drop_first(), c.drop_first());
    }
}

/// The order is irreflexive.
pub proof fn lemma_lex_lt_irrefl(a: Seq<char>)
    ensures
        !lex_lt(a, a),
    decreases a.len(),
{
    if a.len() > 0 {
        lemma_lex_lt_irrefl(a.drop_first());
    }
}

/// Compares two strings in the lexicographic code-point order.
pub fn str_lt(a: &str, b: &str) -> (r: bool)
    ensures
        r == lex_lt(a@, b@),
{
    let a_len = a.unicode_len();
    let b_len = b.unicode_len();
    let mut i: usize = 0;
    proof {
        assert(a@.skip(0) =~= a@);
        assert(b@.skip(0) =~= b@);
    }
    loop
        invariant
            i <= a_len,
            i <= b_len,
            a_len == a@.len(),
            b_len == b@.len(),
            lex_lt(a@, b@) == lex_lt(a@.skip(i as int), b@.skip(i as int)),
        decreases a_len - i,
    {
        if i >= b_len {
            return false;
        }
        if i >= a_len {
            return true;
        }
        let ca = a.get_char(i);
        let cb = b.get_char(i);
        proof {
            let ii = i as int;
            assert(a@.skip(ii)[0] == a@[ii]);
            assert(b@.skip(ii)[0] == b@[ii]);
            assert(a@.skip(ii).drop_first() =~= a@.skip(ii + 1));
            assert(b@.skip(ii).drop_first() =~= b@.skip(ii + 1));
        }
        if ca != cb {
            return (ca as u32) < (cb as u32);
        }
        i = i + 1;
    }
}

} // verus!

