//! Small verified operations on text.

use vstd::prelude::*;

verus! {

/// Whether two texts hold the same characters.
pub fn same_text(a: &str, b: &str) -> (r: bool)
    ensures
        r == (a@ == b@),
{
    let n = a.unicode_len();
    if n != b.unicode_len() {
        return false;
    }
    let mut i: usize = 0;
    while i < n
        invariant
            n == a@.len(),
            n == b@.len(),
            0 <= i <= n,
            forall|j: int| 0 <= j < i ==> a@[j] == b@[j],
        decreases n - i,
    {
        if a.get_char(i) != b.get_char(i) {
            return false;
        }
        i += 1;
    }
    assert(a@ =~= b@);
    true
}

/// `s` ends with `suffix`.
pub open spec fn has_suffix(s: Seq<char>, suffix: Seq<char>) -> bool {
    suffix.len() <= s.len() && s.subrange(s.len() - suffix.len(), s.len() as int) == suffix
}

/// Whether `s` ends with `suffix`.
pub fn ends_with(s: &str, suffix: &str) -> (r: bool)
    ensures
        r == has_suffix(s@, suffix@),
{
    let n = s.unicode_len();
    let m = suffix.unicode_len();
    if m > n {
        return false;
    }
    let off = n - m;
    let mut i: usize = 0;
    while i < m
        invariant
            n == s@.len(),
            m == suffix@.len(),
            off == n - m,
            0 <= i <= m,
            forall|j: int| 0 <= j < i ==> s@[off + j] == suffix@[j],
        decreases m - i,
    {
        if s.get_char(off + i) != suffix.get_char(i) {
            assert(s@.subrange(off as int, n as int)[i as int] != suffix@[i as int]);
            return false;
        }
        i += 1;
    }
    assert(s@.subrange(off as int, n as int) =~= suffix@);
    true
}

/// `s` begins with `prefix`.
pub open spec fn has_prefix(s: Seq<char>, prefix: Seq<char>) -> bool {
    prefix.len() <= s.len() && s.subrange(0, prefix.len() as int) == prefix
}

/// Whether `s` begins with `prefix`.
pub fn starts_with(s: &str, prefix: &str) -> (r: bool)
    ensures
        r == has_prefix(s@, prefix@),
{
    let n = s.unicode_len();
    let m = prefix.unicode_len();
    if m > n {
        return false;
    }
    let mut i: usize = 0;
    while i < m
        invariant
            n == s@.len(),
            m == prefix@.len(),
            m <= n,
            0 <= i <= m,
            forall|j: int| 0 <= j < i ==> s@[j] == prefix@[j],
        decreases m - i,
    {
        if s.get_char(i) != prefix.get_char(i) {
            assert(s@.subrange(0, m as int)[i as int] != prefix@[i as int]);
            return false;
        }
        i += 1;
    }
    assert(s@.subrange(0, m as int) =~= prefix@);
    true
}

/// `s` with every `from` character replaced by `to`.
pub open spec fn replaced_char(s: Seq<char>, from: char, to: char) -> Seq<char> {
    s.map_values(|c: char| if c == from { to } else { c })
}

/// The first `k` characters of `s` as a new string.
pub fn prefix_of(s: &str, k: usize) -> (r: String)
    requires
        k <= s@.len(),
    ensures
        r@ == s@.subrange(0, k as int),
{
    let mut r = String::new();
    let mut i: usize = 0;
    while i < k
        invariant
            k <= s@.len(),
            0 <= i <= k,
            r@ == s@.subrange(0, i as int),
        decreases k - i,
    {
        let c = s.substring_char(i, i + 1);
        r.append(c);
        assert(r@ =~= s@.subrange(0, i + 1));
        i += 1;
    }
    r
}

/// `s` with every `from` character replaced by `to`.
pub fn replace_char(s: &str, from: char, to: &str) -> (r: String)
    requires
        to@.len() == 1,
    ensures
        r@ == replaced_char(s@, from, to@[0]),
{
    let n = s.unicode_len();
    let mut r = String::new();
    let mut i: usize = 0;
    while i < n
        invariant
            n == s@.len(),
            0 <= i <= n,
            r@ == replaced_char(s@.subrange(0, i as int), from, to@[0]),
            to@.len() == 1,
        decreases n - i,
    {
        let c = s.get_char(i);
        if c == from {
            r.append(to);
            assert(to@ =~= seq![to@[0]]);
        } else {
            r.append(s.substring_char(i, i + 1));
        }
        assert(r@ =~= replaced_char(s@.subrange(0, i + 1), from, to@[0]));
        i += 1;
    }
    assert(s@.subrange(0, n as int) =~= s@);
    r
}

/// Relies on `str::chars`: the characters of `s`, in order. (A loop over
/// `get_char` would take time quadratic in the length of a whole file.)
#[verifier::external_body]
pub(crate) fn chars_of(s: &str) -> (r: Vec<char>)
    ensures
        r@ == s@,
{
    s.chars().collect()
}

/// `mark` occurs in `t` at index `i`.
pub open spec fn mark_at(t: Seq<char>, mark: Seq<char>, i: int) -> bool {
    0 <= i && i + mark.len() <= t.len() && t.subrange(i, i + mark.len()) == mark
}

pub open spec fn is_ascii_char(c: char) -> bool {
    (c as u32) < 128
}

/// The `n` characters that follow each occurrence of `mark` in `t` (fewer at
/// the end of `t`) are all ASCII.
pub open spec fn ascii_after_marks(t: Seq<char>, mark: Seq<char>, n: nat) -> bool {
    forall|i: int, k: int|
        #![trigger mark_at(t, mark, i), t[k]]
        mark_at(t, mark, i) && i + mark.len() <= k < i + mark.len() + n && k < t.len()
            ==> is_ascii_char(t[k])
}

fn mark_at_index(t: &Vec<char>, mark: &Vec<char>, i: usize) -> (r: bool)
    requires
        i <= t@.len(),
    ensures
        r == mark_at(t@, mark@, i as int),
{
    let m = mark.len();
    let tl = t.len();
    if m > tl - i {
        return false;
    }
    let mut j: usize = 0;
    while j < m
        invariant
            m == mark@.len(),
            tl == t@.len(),
            i + m <= tl,
            0 <= j <= m,
            forall|l: int| 0 <= l < j ==> t@[i + l] == mark@[l],
        decreases m - j,
    {
        if t[i + j] != mark[j] {
            assert(t@.subrange(i as int, i + m)[j as int] != mark@[j as int]);
            return false;
        }
        j += 1;
    }
    assert(t@.subrange(i as int, i + m) =~= mark@);
    true
}

/// Whether the characters of `t` from `from` on, `n` of them at most, are ASCII.
fn ascii_run(t: &Vec<char>, from: usize, n: usize) -> (r: bool)
    ensures
        r == forall|k: int| from <= k < from + n && k < t@.len() ==> is_ascii_char(#[trigger] t@[k]),
{
    let mut k: usize = from;
    while k < t.len() && k - from < n
        invariant
            from <= k,
            k <= t@.len() || k == from,
            forall|l: int| from <= l < k && l < t@.len() ==> is_ascii_char(#[trigger] t@[l]),
        decreases t@.len() - k,
    {
        if (t[k] as u32) >= 128 {
            return false;
        }
        k += 1;
    }
    true
}

/// Whether the `n` characters after each occurrence of `mark` in `s` are ASCII.
pub fn check_ascii_after_marks(s: &str, mark: &str, n: usize) -> (r: bool)
    ensures
        r == ascii_after_marks(s@, mark@, n as nat),
{
    let t = chars_of(s);
    let mk = chars_of(mark);
    let len = t.len();
    let mut i: usize = 0;
    while i < len
        invariant
            len == t@.len(),
            t@ == s@,
            mk@ == mark@,
            0 <= i <= len,
            forall|a: int, k: int|
                #![trigger mark_at(s@, mark@, a), s@[k]]
                0 <= a < i && mark_at(s@, mark@, a) && a + mark@.len() <= k < a + mark@.len() + n
                    && k < s@.len() ==> is_ascii_char(s@[k]),
        decreases len - i,
    {
        if mark_at_index(&t, &mk, i) {
            if !ascii_run(&t, i + mk.len(), n) {
                let ghost k = choose|k: int|
                    i + mk@.len() <= k < i + mk@.len() + n && k < t@.len() && !is_ascii_char(
                        #[trigger] t@[k],
                    );
                assert(mark_at(s@, mark@, i as int));
                assert(!is_ascii_char(s@[k]));
                return false;
            }
        }
        i += 1;
    }
    assert forall|a: int, k: int|
        #![trigger mark_at(s@, mark@, a), s@[k]]
        mark_at(s@, mark@, a) && a + mark@.len() <= k < a + mark@.len() + n && k < s@.len()
            implies is_ascii_char(s@[k]) by {
        if a >= len {
            assert(k < s@.len());
        }
    }
    true
}

pub open spec fn is_ascii_digit(c: char) -> bool {
    '0' <= c && c <= '9'
}

/// Length of the run of ASCII digits that ends just before index `i` of `t`.
pub open spec fn digits_before(t: Seq<char>, i: int) -> nat
    decreases i,
{
    if i <= 0 || i > t.len() || !is_ascii_digit(t[i - 1]) {
        0
    } else {
        1 + digits_before(t, i - 1)
    }
}

/// Every run of consecutive ASCII digits in `t` is shorter than `n`.
pub open spec fn digit_runs_shorter(t: Seq<char>, n: nat) -> bool {
    forall|i: int| 0 <= i <= t.len() ==> #[trigger] digits_before(t, i) < n
}

/// Whether every run of consecutive ASCII digits in `s` is shorter than `n`.
pub fn check_digit_runs_shorter(s: &str, n: usize) -> (r: bool)
    ensures
        r == digit_runs_shorter(s@, n as nat),
{
    let t = chars_of(s);
    let len = t.len();
    if n == 0 {
        assert(digits_before(s@, 0) == 0);
        return false;
    }
    let mut run: usize = 0;
    let mut i: usize = 0;
    while i < len
        invariant
            len == t@.len(),
            t@ == s@,
            0 <= i <= len,
            n > 0,
            run == digits_before(s@, i as int),
            forall|j: int| 0 <= j <= i ==> #[trigger] digits_before(s@, j) < n,
        decreases len - i,
    {
        let c = t[i];
        if '0' <= c && c <= '9' {
            run = run + 1;
        } else {
            run = 0;
        }
        assert(run == digits_before(s@, i + 1));
        if run >= n {
            return false;
        }
        i += 1;
    }
    true
}

} // verus!
