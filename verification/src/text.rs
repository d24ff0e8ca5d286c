//! Verified text utilities: decimal rendering, whitespace trimming, substring
//! search and line splitting. They underpin the extractor, the failure
//! messages and the settings store.

use vstd::prelude::*;

verus! {

/// The decimal digit character for `d` (meaningful for `0 <= d <= 9`).
pub open spec fn digit_char(d: int) -> char {
    if d == 0 { '0' }
    else if d == 1 { '1' }
    else if d == 2 { '2' }
    else if d == 3 { '3' }
    else if d == 4 { '4' }
    else if d == 5 { '5' }
    else if d == 6 { '6' }
    else if d == 7 { '7' }
    else if d == 8 { '8' }
    else { '9' }
}

/// Decimal digit sequence of a natural number, most significant digit first.
pub open spec fn dec_digits(n: nat) -> Seq<char>
    decreases n,
{
    if n < 10 {
        seq![digit_char(n as int)]
    } else {
        dec_digits(n / 10).push(digit_char((n % 10) as int))
    }
}

/// Decimal rendering of an integer, with a leading minus sign when negative.
pub open spec fn dec_int(i: int) -> Seq<char> {
    if i >= 0 {
        dec_digits(i as nat)
    } else {
        seq!['-'] + dec_digits((-i) as nat)
    }
}

/// One-character string for a decimal digit.
fn digit_str(d: u64) -> (r: &'static str)
    requires
        d < 10,
    ensures
        r@ == seq![digit_char(d as int)],
{
    proof {
        reveal_strlit("0");
        reveal_strlit("1");
        reveal_strlit("2");
        reveal_strlit("3");
        reveal_strlit("4");
        reveal_strlit("5");
        reveal_strlit("6");
        reveal_strlit("7");
        reveal_strlit("8");
        reveal_strlit("9");
    }
    let r: &'static str = if d == 0 { "0" }
    else if d == 1 { "1" }
    else if d == 2 { "2" }
    else if d == 3 { "3" }
    else if d == 4 { "4" }
    else if d == 5 { "5" }
    else if d == 6 { "6" }
    else if d == 7 { "7" }
    else if d == 8 { "8" }
    else { "9" };
    proof {
        assert(r@ =~= seq![digit_char(d as int)]);
    }
    r
}

/// Decimal rendering of a `u64`.
pub fn u64_dec(n: u64) -> (r: String)
    ensures
        r@ == dec_digits(n as nat),
    decreases n,
{
    if n < 10 {
        String::from_str(digit_str(n))
    } else {
        let mut s = u64_dec(n / 10);
        s.append(digit_str(n % 10));
        s
    }
}

/// Decimal rendering of an `i32`, with a minus sign when negative.
pub fn i32_dec(n: i32) -> (r: String)
    ensures
        r@ == dec_int(n as int),
{
    if n >= 0 {
        u64_dec(n as u64)
    } else {
        let m: i64 = -(n as i64);
        let mut s = String::from_str("-");
        s.append(u64_dec(m as u64).as_str());
        proof {
            reveal_strlit("-");
            assert(s@ =~= dec_int(n as int));
        }
        s
    }
}

/// Whitespace as far as trimming is concerned.
pub open spec fn is_space(c: char) -> bool {
    c == ' ' || c == '\t' || c == '\r' || c == '\n'
}

fn is_space_exec(c: char) -> (r: bool)
    ensures
        r == is_space(c),
{
    c == ' ' || c == '\t' || c == '\r' || c == '\n'
}

/// Number of leading whitespace characters.
pub open spec fn leading_ws(s: Seq<char>) -> nat
    decreases s.len(),
{
    if s.len() == 0 {
        0
    } else if is_space(s[0]) {
        (1 + leading_ws(s.skip(1))) as nat
    } else {
        0
    }
}

/// Number of trailing whitespace characters.
pub open spec fn trailing_ws(s: Seq<char>) -> nat
    decreases s.len(),
{
    if s.len() == 0 {
        0
    } else if is_space(s.last()) {
        (1 + trailing_ws(s.drop_last())) as nat
    } else {
        0
    }
}

/// The string with leading and trailing whitespace removed.
pub open spec fn trim_v(s: Seq<char>) -> Seq<char> {
    let t = s.skip(leading_ws(s) as int);
    t.take(t.len() - trailing_ws(t))
}

pub proof fn lemma_leading_ws(s: Seq<char>)
    ensures
        leading_ws(s) <= s.len(),
        forall|k: int| 0 <= k < leading_ws(s) ==> is_space(s[k]),
        leading_ws(s) < s.len() ==> !is_space(s[leading_ws(s) as int]),
    decreases s.len(),
{
    if s.len() > 0 && is_space(s[0]) {
        lemma_leading_ws(s.skip(1));
        assert forall|k: int| 0 <= k < leading_ws(s) implies is_space(s[k]) by {
            if k > 0 {
                assert(is_space(s.skip(1)[k - 1]));
            }
        }
    }
}

pub proof fn lemma_trailing_ws(s: Seq<char>)
    ensures
        trailing_ws(s) <= s.len(),
        forall|k: int| s.len() - trailing_ws(s) <= k < s.len() ==> is_space(s[k]),
        trailing_ws(s) < s.len() ==> !is_space(s[s.len() - trailing_ws(s) - 1]),
    decreases s.len(),
{
    if s.len() > 0 && is_space(s.last()) {
        lemma_trailing_ws(s.drop_last());
        assert forall|k: int| s.len() - trailing_ws(s) <= k < s.len() implies is_space(s[k]) by {
            if k < s.len() - 1 {
                assert(is_space(s.drop_last()[k]));
            }
        }
    }
}

/// Trim leading and trailing whitespace.
pub fn trim(s: &str) -> (r: String)
    ensures
        r@ == trim_v(s@),
{
    let n = s.unicode_len();
    let mut i: usize = 0;
    while i < n && is_space_exec(s.get_char(i))
        invariant
            0 <= i <= n,
            n == s@.len(),
            forall|k: int| 0 <= k < i ==> is_space(s@[k]),
        decreases n - i,
    {
        i = i + 1;
    }
    proof {
        lemma_leading_ws(s@);
        if i < leading_ws(s@) {
            assert(is_space(s@[i as int]));
        }
        if i > leading_ws(s@) {
            assert(is_space(s@[leading_ws(s@) as int]));
        }
        assert(i == leading_ws(s@));
    }
    let ghost t = s@.skip(i as int);
    let mut j: usize = n;
    while j > i && is_space_exec(s.get_char(j - 1))
        invariant
            i <= j <= n,
            n == s@.len(),
            t == s@.skip(i as int),
            forall|k: int| j <= k < n ==> is_space(s@[k]),
        decreases j,
    {
        j = j - 1;
    }
    proof {
        lemma_trailing_ws(t);
        assert(forall|k: int| 0 <= k < t.len() ==> t[k] == s@[k + i]);
        let e = n - trailing_ws(t);
        if j < e {
            // t has a non-space just before its trailing run, but the loop saw
            // spaces everywhere from j on
            assert(is_space(s@[e - 1]));
            assert(t[e - 1 - i] == s@[e - 1]);
            assert(!is_space(t[t.len() - trailing_ws(t) - 1]));
        }
        if j > e {
            // the loop stopped at a non-space at j-1, yet j-1 lies in the
            // trailing whitespace run of t
            assert(j > i);
            assert(!is_space(s@[j - 1]) || j == i);
            assert(is_space(t[j - 1 - i]));
        }
        assert(j == e);
    }
    let r = String::from_str(s.substring_char(i, j));
    proof {
        assert(r@ =~= trim_v(s@));
    }
    r
}

/// `p` occurs in `t` at position `i`.
pub open spec fn occurs_at(t: Seq<char>, p: Seq<char>, i: int) -> bool {
    0 <= i && i + p.len() <= t.len() && t.subrange(i, i + p.len()) == p
}

/// Position of the first occurrence of `p` in `t`, or -1 when there is none.
pub open spec fn first_occ(t: Seq<char>, p: Seq<char>) -> int
    decreases t.len(),
{
    if occurs_at(t, p, 0) {
        0
    } else if t.len() == 0 {
        -1
    } else {
        let r = first_occ(t.skip(1), p);
        if r < 0 {
            -1
        } else {
            r + 1
        }
    }
}

/// `first_occ` names the least occurrence position, and -1 means no
/// occurrence at all.
pub proof fn lemma_first_occ(t: Seq<char>, p: Seq<char>)
    ensures
        first_occ(t, p) >= 0 ==> occurs_at(t, p, first_occ(t, p)),
        first_occ(t, p) >= 0 ==> forall|j: int| 0 <= j < first_occ(t, p) ==> !occurs_at(t, p, j),
        first_occ(t, p) < 0 ==> forall|j: int| !occurs_at(t, p, j),
        first_occ(t, p) >= -1,
    decreases t.len(),
{
    if !occurs_at(t, p, 0) && t.len() > 0 {
        lemma_first_occ(t.skip(1), p);
        assert forall|j: int| 1 <= j && occurs_at(t, p, j) implies occurs_at(t.skip(1), p, j - 1) by {
            assert(t.skip(1).subrange(j - 1, j - 1 + p.len() as int) =~= t.subrange(
                j,
                j + p.len() as int,
            ));
        }
        assert forall|j: int| 0 <= j && occurs_at(t.skip(1), p, j) implies occurs_at(t, p, j + 1) by {
            assert(t.subrange(j + 1, j + 1 + p.len() as int) =~= t.skip(1).subrange(
                j,
                j + p.len() as int,
            ));
        }
        let r = first_occ(t.skip(1), p);
        if r >= 0 {
            assert(occurs_at(t, p, r + 1));
        }
    }
}

/// Find the first occurrence of `p` in `t`, by character position.
pub fn find_sub(t: &str, p: &str) -> (r: Option<usize>)
    ensures
        match r {
            Some(i) => first_occ(t@, p@) == i,
            None => first_occ(t@, p@) == -1,
        },
{
    let n = t.unicode_len();
    let m = p.unicode_len();
    proof {
        lemma_first_occ(t@, p@);
    }
    if m > n {
        return None;
    }
    let mut i: usize = 0;
    while i <= n - m
        invariant
            0 <= i <= n - m + 1,
            m <= n,
            n == t@.len(),
            m == p@.len(),
            forall|j: int| 0 <= j < i ==> !occurs_at(t@, p@, j),
        decreases n + 1 - i,
    {
        let mut k: usize = 0;
        while k < m && t.get_char(i + k) == p.get_char(k)
            invariant
                0 <= k <= m,
                i + m <= n,
                n == t@.len(),
                m == p@.len(),
                forall|l: int| 0 <= l < k ==> t@[i + l] == p@[l],
            decreases m - k,
        {
            k = k + 1;
        }
        if k == m {
            proof {
                assert(t@.subrange(i as int, i + m) =~= p@);
                assert(occurs_at(t@, p@, i as int));
                lemma_first_occ(t@, p@);
                let f = first_occ(t@, p@);
                assert(f >= 0);
                assert(f >= i);
                assert(f <= i);
            }
            return Some(i);
        }
        proof {
            if occurs_at(t@, p@, i as int) {
                assert(t@.subrange(i as int, i + m)[k as int] == t@[i + k]);
            }
        }
        i = i + 1;
    }
    proof {
        lemma_first_occ(t@, p@);
        let f = first_occ(t@, p@);
        if f >= 0 {
            assert(occurs_at(t@, p@, f));
            assert(f > n - m);
        }
    }
    None
}

/// Does `p` occur anywhere in `t`?
pub fn contains_sub(t: &str, p: &str) -> (r: bool)
    ensures
        r == (first_occ(t@, p@) >= 0),
{
    find_sub(t, p).is_some()
}

/// Index of the last occurrence of the character `c` in `s`, or -1 when
/// there is none.
pub open spec fn last_idx_of(s: Seq<char>, c: char) -> int
    decreases s.len(),
{
    if s.len() == 0 {
        -1
    } else if s.last() == c {
        s.len() - 1
    } else {
        last_idx_of(s.drop_last(), c)
    }
}

/// `last_idx_of` names the greatest occurrence position, and -1 means no
/// occurrence at all.
pub proof fn lemma_last_idx_of(s: Seq<char>, c: char)
    ensures
        -1 <= last_idx_of(s, c) < s.len(),
        last_idx_of(s, c) >= 0 ==> s[last_idx_of(s, c)] == c,
        forall|k: int| last_idx_of(s, c) < k < s.len() ==> s[k] != c,
    decreases s.len(),
{
    if s.len() > 0 && s.last() != c {
        lemma_last_idx_of(s.drop_last(), c);
        assert forall|k: int| last_idx_of(s, c) < k < s.len() implies s[k] != c by {
            if k < s.len() - 1 {
                assert(s.drop_last()[k] != c);
            }
        }
    }
}

/// Find the last occurrence of the character `c` in `s`.
pub fn find_last(s: &str, c: char) -> (r: Option<usize>)
    ensures
        match r {
            Some(i) => last_idx_of(s@, c) == i,
            None => last_idx_of(s@, c) == -1,
        },
{
    let n = s.unicode_len();
    let mut j: usize = n;
    while j > 0
        invariant
            0 <= j <= n,
            n == s@.len(),
            forall|k: int| j <= k < n ==> s@[k] != c,
        decreases j,
    {
        j = j - 1;
        if s.get_char(j) == c {
            proof {
                lemma_last_idx_of(s@, c);
                let l = last_idx_of(s@, c);
                if l < j {
                    assert(s@[j as int] != c);
                }
                if l > j {
                    assert(s@[l] != c);
                }
            }
            return Some(j);
        }
    }
    proof {
        lemma_last_idx_of(s@, c);
        let l = last_idx_of(s@, c);
        if l >= 0 {
            assert(s@[l] != c);
        }
    }
    None
}

/// A line with a final carriage return removed.
pub open spec fn strip_cr(s: Seq<char>) -> Seq<char> {
    if s.len() > 0 && s.last() == '\r' {
        s.drop_last()
    } else {
        s
    }
}

/// The lines of a text: split on newline characters, a trailing carriage
/// return removed from each line, and no final empty line after a trailing
/// newline.
pub open spec fn split_lines_v(s: Seq<char>) -> Seq<Seq<char>>
    decreases s.len(),
    via split_lines_v_decreases
{
    if s.len() == 0 {
        Seq::empty()
    } else {
        let i = first_occ(s, seq!['\n']);
        if i < 0 {
            seq![strip_cr(s)]
        } else {
            seq![strip_cr(s.take(i))] + split_lines_v(s.skip(i + 1))
        }
    }
}

#[via_fn]
proof fn split_lines_v_decreases(s: Seq<char>) {
    if s.len() > 0 {
        lemma_first_occ(s, seq!['\n']);
    }
}

/// Split a text into lines.
pub fn split_lines(s: &str) -> (r: Vec<String>)
    ensures
        r.deep_view() == split_lines_v(s@),
{
    proof {
        reveal_strlit("\n");
        assert("\n"@ =~= seq!['\n']);
    }
    let mut r: Vec<String> = Vec::new();
    let mut rest: &str = s;
    loop
        invariant
            r.deep_view() + split_lines_v(rest@) =~= split_lines_v(s@),
        ensures
            r.deep_view() == split_lines_v(s@),
        decreases rest@.len(),
    {
        let len = rest.unicode_len();
        if len == 0 {
            proof {
                assert(r.deep_view() + split_lines_v(rest@) =~= r.deep_view());
            }
            break;
        }
        proof {
            reveal_strlit("\n");
            assert("\n"@ =~= seq!['\n']);
        }
        match find_sub(rest, "\n") {
            Some(i) => {
                proof {
                    lemma_first_occ(rest@, seq!['\n']);
                    assert(first_occ(rest@, seq!['\n']) == i);
                    assert(occurs_at(rest@, seq!['\n'], i as int));
                    assert(i + 1 <= rest@.len());
                }
                push_stripped(&mut r, rest, i);
                let next: &str = rest.substring_char(i + 1, len);
                proof {
                    assert(next@ =~= rest@.skip(i + 1));
                    assert(r.deep_view() + split_lines_v(next@) =~= split_lines_v(s@));
                }
                rest = next;
            },
            None => {
                push_stripped(&mut r, rest, len);
                proof {
                    assert(rest@.take(len as int) =~= rest@);
                    assert(r.deep_view() + split_lines_v(Seq::<char>::empty()) =~= split_lines_v(
                        s@,
                    ));
                }
                rest = "";
                proof {
                    reveal_strlit("");
                    assert(rest@ =~= Seq::<char>::empty());
                    assert(r.deep_view() + split_lines_v(rest@) =~= r.deep_view());
                    assert(r.deep_view() =~= split_lines_v(s@));
                }
                break;
            },
        }
    }
    r
}

/// Push `rest[..end]` with a trailing carriage return removed.
fn push_stripped(r: &mut Vec<String>, rest: &str, end: usize)
    requires
        end <= rest@.len(),
    ensures
        final(r).deep_view() =~= old(r).deep_view().push(strip_cr(rest@.take(end as int))),
{
    let cut = if end > 0 && rest.get_char(end - 1) == '\r' {
        end - 1
    } else {
        end
    };
    let line = String::from_str(rest.substring_char(0, cut));
    proof {
        assert(line@ =~= strip_cr(rest@.take(end as int)));
    }
    r.push(line);
}

} // verus!
