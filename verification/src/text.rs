//! Verified text helpers: prefix and substring tests, character search,
//! line splitting, trimming, and decimal rendering, each specified over
//! the `Seq<char>` view of the string it works on.

use vstd::prelude::*;
use vstd::string::*;

verus! {

/// `p` is a prefix of `s`.
pub open spec fn starts_with_spec(s: Seq<char>, p: Seq<char>) -> bool {
    p.len() <= s.len() && s.subrange(0, p.len() as int) == p
}

/// `p` occurs contiguously somewhere in `s`.
pub open spec fn contains_spec(s: Seq<char>, p: Seq<char>) -> bool {
    exists|i: int| 0 <= i && i + p.len() <= s.len() && #[trigger] s.subrange(i, i + p.len() as int)
        == p
}

pub fn str_starts_with(s: &str, p: &str) -> (b: bool)
    ensures
        b == starts_with_spec(s@, p@),
{
    let sn = s.unicode_len();
    let pn = p.unicode_len();
    if pn > sn {
        return false;
    }
    let mut i: usize = 0;
    while i < pn
        invariant
            0 <= i <= pn,
            pn <= sn,
            sn == s@.len(),
            pn == p@.len(),
            forall|j: int| 0 <= j < i ==> s@[j] == p@[j],
        decreases pn - i,
    {
        if s.get_char(i) != p.get_char(i) {
            proof {
                assert(s@.subrange(0, p@.len() as int) != p@) by {
                    assert(s@.subrange(0, p@.len() as int)[i as int] == s@[i as int]);
                }
            }
            return false;
        }
        i += 1;
    }
    proof {
        assert(s@.subrange(0, p@.len() as int) =~= p@);
    }
    true
}

/// `p` matches `s` at offset `at`.
fn matches_at(s: &str, p: &str, at: usize) -> (b: bool)
    requires
        at + p@.len() <= s@.len(),
    ensures
        b == (s@.subrange(at as int, at + p@.len() as int) == p@),
{
    let sn = s.unicode_len();
    let pn = p.unicode_len();
    let mut j: usize = 0;
    while j < pn
        invariant
            0 <= j <= pn,
            pn == p@.len(),
            sn == s@.len(),
            at + pn <= sn,
            forall|k: int| 0 <= k < j ==> s@[at + k] == p@[k],
        decreases pn - j,
    {
        if s.get_char(at + j) != p.get_char(j) {
            proof {
                assert(s@.subrange(at as int, at + p@.len() as int) != p@) by {
                    assert(s@.subrange(at as int, at + p@.len() as int)[j as int]
                        == s@[at + j as int]);
                }
            }
            return false;
        }
        j += 1;
    }
    proof {
        assert(s@.subrange(at as int, at + p@.len() as int) =~= p@);
    }
    true
}

pub fn str_contains(s: &str, p: &str) -> (b: bool)
    ensures
        b == contains_spec(s@, p@),
{
    let sn = s.unicode_len();
    let pn = p.unicode_len();
    if pn > sn {
        return false;
    }
    if pn == 0 {
        proof {
            assert(s@.subrange(0, 0 + p@.len() as int) =~= p@);
        }
        return true;
    }
    let mut i: usize = 0;
    while i <= sn - pn
        invariant
            0 <= i,
            i + pn <= sn + 1,
            1 <= pn <= sn,
            sn == s@.len(),
            pn == p@.len(),
            forall|k: int| 0 <= k < i ==> #[trigger] s@.subrange(k, k + p@.len() as int) != p@,
        decreases sn - i,
    {
        if matches_at(s, p, i) {
            return true;
        }
        i += 1;
    }
    false
}

/// Index of the first occurrence of `c` in `s`; `s.len()` when absent.
pub open spec fn first_occ(s: Seq<char>, c: char) -> int
    decreases s.len(),
{
    if s.len() == 0 {
        0
    } else if s[0] == c {
        0
    } else {
        1 + first_occ(s.skip(1), c)
    }
}

pub proof fn lemma_first_occ(s: Seq<char>, c: char)
    ensures
        0 <= first_occ(s, c) <= s.len(),
        forall|j: int| 0 <= j < first_occ(s, c) ==> s[j] != c,
        first_occ(s, c) < s.len() ==> s[first_occ(s, c)] == c,
    decreases s.len(),
{
    if s.len() > 0 && s[0] != c {
        lemma_first_occ(s.skip(1), c);
        assert(forall|j: int| 0 <= j < first_occ(s.skip(1), c) ==> s.skip(1)[j] != c);
        assert forall|j: int| 0 <= j < first_occ(s, c) implies s[j] != c by {
            if j > 0 {
                assert(s.skip(1)[j - 1] == s[j]);
            }
        }
        if first_occ(s, c) < s.len() {
            assert(s.skip(1)[first_occ(s.skip(1), c)] == s[first_occ(s, c)]);
        }
    }
}

pub proof fn lemma_first_occ_at(s: Seq<char>, c: char, i: int)
    requires
        0 <= i <= s.len(),
        forall|j: int| 0 <= j < i ==> s[j] != c,
        i < s.len() ==> s[i] == c,
    ensures
        first_occ(s, c) == i,
    decreases s.len(),
{
    if s.len() > 0 && i > 0 {
        assert(s[0] != c);
        assert forall|j: int| 0 <= j < i - 1 implies s.skip(1)[j] != c by {
            assert(s.skip(1)[j] == s[j + 1]);
        }
        if i - 1 < s.skip(1).len() {
            assert(s.skip(1)[i - 1] == s[i]);
        }
        lemma_first_occ_at(s.skip(1), c, i - 1);
    }
}

/// First index of `c` in `s`, or the length of `s` when `c` is absent.
pub fn find_char(s: &str, c: char) -> (i: usize)
    ensures
        i == first_occ(s@, c),
{
    let n = s.unicode_len();
    let mut i: usize = 0;
    while i < n
        invariant
            0 <= i <= n,
            n == s@.len(),
            forall|j: int| 0 <= j < i ==> s@[j] != c,
        decreases n - i,
    {
        if s.get_char(i) == c {
            proof {
                lemma_first_occ_at(s@, c, i as int);
            }
            return i;
        }
        i += 1;
    }
    proof {
        lemma_first_occ_at(s@, c, n as int);
    }
    n
}

/// ASCII whitespace, the blank characters that trimming removes.
pub open spec fn is_wsp(c: char) -> bool {
    c == ' ' || c == '\t' || c == '\n' || c == '\r'
}

pub fn is_wsp_char(c: char) -> (b: bool)
    ensures
        b == is_wsp(c),
{
    c == ' ' || c == '\t' || c == '\n' || c == '\r'
}

/// Every character of `s` is whitespace (an empty `s` is blank).
pub open spec fn is_blank_spec(s: Seq<char>) -> bool {
    forall|i: int| 0 <= i < s.len() ==> is_wsp(#[trigger] s[i])
}

pub fn str_is_blank(s: &str) -> (b: bool)
    ensures
        b == is_blank_spec(s@),
{
    let n = s.unicode_len();
    let mut i: usize = 0;
    while i < n
        invariant
            0 <= i <= n,
            n == s@.len(),
            forall|j: int| 0 <= j < i ==> is_wsp(#[trigger] s@[j]),
        decreases n - i,
    {
        if !is_wsp_char(s.get_char(i)) {
            return false;
        }
        i += 1;
    }
    true
}

pub open spec fn trim_start_spec(s: Seq<char>) -> Seq<char>
    decreases s.len(),
{
    if s.len() > 0 && is_wsp(s[0]) {
        trim_start_spec(s.skip(1))
    } else {
        s
    }
}

pub open spec fn trim_end_spec(s: Seq<char>) -> Seq<char>
    decreases s.len(),
{
    if s.len() > 0 && is_wsp(s.last()) {
        trim_end_spec(s.drop_last())
    } else {
        s
    }
}

/// `s` with leading and trailing whitespace removed.
pub open spec fn trim_spec(s: Seq<char>) -> Seq<char> {
    trim_end_spec(trim_start_spec(s))
}

proof fn lemma_trim_start_at(s: Seq<char>, a: int)
    requires
        0 <= a <= s.len(),
        forall|j: int| 0 <= j < a ==> is_wsp(#[trigger] s[j]),
        a < s.len() ==> !is_wsp(s[a]),
    ensures
        trim_start_spec(s) == s.skip(a),
    decreases s.len(),
{
    if a == 0 {
        assert(s.skip(0) =~= s);
    } else {
        assert(is_wsp(s[0]));
        assert forall|j: int| 0 <= j < a - 1 implies is_wsp(#[trigger] s.skip(1)[j]) by {
            assert(s.skip(1)[j] == s[j + 1]);
        }
        if a - 1 < s.skip(1).len() {
            assert(s.skip(1)[a - 1] == s[a]);
        }
        lemma_trim_start_at(s.skip(1), a - 1);
        assert(s.skip(1).skip(a - 1) =~= s.skip(a));
    }
}

proof fn lemma_trim_end_at(s: Seq<char>, b: int)
    requires
        0 <= b <= s.len(),
        forall|j: int| b <= j < s.len() ==> is_wsp(#[trigger] s[j]),
        b > 0 ==> !is_wsp(s[b - 1]),
    ensures
        trim_end_spec(s) == s.take(b),
    decreases s.len(),
{
    if b == s.len() {
        if s.len() > 0 && is_wsp(s.last()) {
            assert(!is_wsp(s[b - 1]));
            assert(false);
        }
        assert(s.take(b) =~= s);
    } else {
        assert(is_wsp(s.last()));
        assert forall|j: int| b <= j < s.drop_last().len() implies is_wsp(
            #[trigger] s.drop_last()[j],
        ) by {
            assert(s.drop_last()[j] == s[j]);
        }
        if b > 0 {
            assert(s.drop_last()[b - 1] == s[b - 1]);
        }
        lemma_trim_end_at(s.drop_last(), b);
        assert(s.drop_last().take(b) =~= s.take(b));
    }
}

/// `s` without leading or trailing ASCII whitespace.
pub fn str_trim<'a>(s: &'a str) -> (r: &'a str)
    ensures
        r@ == trim_spec(s@),
{
    let n = s.unicode_len();
    let mut a: usize = 0;
    while a < n && is_wsp_char(s.get_char(a))
        invariant
            0 <= a <= n,
            n == s@.len(),
            forall|j: int| 0 <= j < a ==> is_wsp(#[trigger] s@[j]),
        decreases n - a,
    {
        a += 1;
    }
    let mut b: usize = n;
    while b > a && is_wsp_char(s.get_char(b - 1))
        invariant
            a <= b <= n,
            n == s@.len(),
            forall|j: int| 0 <= j < a ==> is_wsp(#[trigger] s@[j]),
            a < n ==> !is_wsp(s@[a as int]),
            forall|j: int| b <= j < n ==> is_wsp(#[trigger] s@[j]),
        decreases b,
    {
        b -= 1;
    }
    let r = s.substring_char(a, b);
    proof {
        lemma_trim_start_at(s@, a as int);
        let t = s@.skip(a as int);
        assert forall|j: int| (b - a) <= j < t.len() implies is_wsp(#[trigger] t[j]) by {
            assert(t[j] == s@[a + j]);
        }
        if b > a {
            assert(t[b - a - 1] == s@[b - 1]);
        }
        lemma_trim_end_at(t, b - a);
        assert(t.take(b - a) =~= s@.subrange(a as int, b as int));
    }
    r
}

/// The final carriage return, if any, removed: how a line terminated by
/// a newline is cleaned.
pub open spec fn strip_cr(l: Seq<char>) -> Seq<char> {
    if l.len() > 0 && l.last() == '\r' {
        l.drop_last()
    } else {
        l
    }
}

/// `s` split at newline characters: each terminated line loses its
/// terminator and a final carriage return; a trailing newline yields no
/// empty final line.
pub open spec fn lines_spec(s: Seq<char>) -> Seq<Seq<char>>
    decreases s.len(),
{
    if s.len() == 0 {
        seq![]
    } else {
        let i = first_occ(s, '\n');
        if 0 <= i && i < s.len() {
            seq![strip_cr(s.take(i))] + lines_spec(s.skip(i + 1))
        } else {
            seq![s]
        }
    }
}

pub fn split_lines(s: &str) -> (r: Vec<String>)
    ensures
        r.deep_view() == lines_spec(s@),
{
    let n = s.unicode_len();
    let mut r: Vec<String> = Vec::new();
    proof {
        assert(s@.skip(0) =~= s@);
        assert(r.deep_view() =~~= Seq::<Seq<char>>::empty());
        assert(r.deep_view() + lines_spec(s@) =~~= lines_spec(s@));
    }
    let mut start: usize = 0;
    let mut i: usize = 0;
    while i < n
        invariant
            0 <= start <= i <= n,
            n == s@.len(),
            forall|j: int| start <= j < i ==> s@[j] != '\n',
            r.deep_view() + lines_spec(s@.skip(start as int)) == lines_spec(s@),
        decreases n - i,
    {
        if s.get_char(i) == '\n' {
            let ghost old_dv = r.deep_view();
            let ghost tail = s@.skip(start as int);
            proof {
                assert forall|j: int| 0 <= j < i - start implies #[trigger] tail[j] != '\n' by {
                    assert(tail[j] == s@[start + j]);
                }
                assert(tail[i - start] == s@[i as int]);
                lemma_first_occ_at(tail, '\n', i - start);
                assert(tail.take(i - start) =~= s@.subrange(start as int, i as int));
                assert(tail.skip(i - start + 1) =~= s@.skip(i + 1));
            }
            let line: &str = if i > start && s.get_char(i - 1) == '\r' {
                let ln = s.substring_char(start, i - 1);
                proof {
                    let seg = s@.subrange(start as int, i as int);
                    assert(seg.last() == s@[i - 1]);
                    assert(seg.drop_last() =~= s@.subrange(start as int, i - 1));
                }
                ln
            } else {
                let ln = s.substring_char(start, i);
                proof {
                    let seg = s@.subrange(start as int, i as int);
                    if seg.len() > 0 {
                        assert(seg.last() == s@[i - 1]);
                    }
                }
                ln
            };
            r.push(String::from_str(line));
            proof {
                assert(r.deep_view() =~~= old_dv.push(strip_cr(tail.take(i - start))));
                assert(r.deep_view() + lines_spec(s@.skip(i + 1)) =~~= old_dv + lines_spec(
                    tail,
                ));
            }
            start = i + 1;
        }
        i += 1;
    }
    if start < n {
        let ghost old_dv = r.deep_view();
        let ghost tail = s@.skip(start as int);
        proof {
            assert forall|j: int| 0 <= j < tail.len() implies #[trigger] tail[j] != '\n' by {
                assert(tail[j] == s@[start + j]);
            }
            lemma_first_occ_at(tail, '\n', tail.len() as int);
        }
        let line = s.substring_char(start, n);
        r.push(String::from_str(line));
        proof {
            assert(tail =~= s@.subrange(start as int, n as int));
            assert(r.deep_view() =~~= old_dv.push(tail));
            assert(r.deep_view() =~~= old_dv + lines_spec(tail));
        }
    }
    proof {
        assert(s@.skip(start as int).len() == 0 ==> lines_spec(s@.skip(start as int))
            =~~= Seq::<Seq<char>>::empty());
        assert(r.deep_view() =~~= lines_spec(s@));
    }
    r
}

/// How many lines of `ls` are nonempty.
pub open spec fn nonempty_count(ls: Seq<Seq<char>>) -> nat
    decreases ls.len(),
{
    if ls.len() == 0 {
        0
    } else {
        (if ls[0].len() > 0 {
            1nat
        } else {
            0nat
        }) + nonempty_count(ls.skip(1))
    }
}

pub proof fn lemma_nonempty_count_cons(x: Seq<char>, ls: Seq<Seq<char>>)
    ensures
        nonempty_count(seq![x] + ls) == (if x.len() > 0 {
            1nat
        } else {
            0nat
        }) + nonempty_count(ls),
{
    assert((seq![x] + ls)[0] == x);
    assert((seq![x] + ls).skip(1) =~~= ls);
}

/// A string of `m` characters holds fewer than `m` nonempty lines once
/// separators are counted: the bound that keeps line numbering small.
pub proof fn lemma_lines_nonempty_bound(s: Seq<char>)
    ensures
        2 * nonempty_count(lines_spec(s)) <= s.len() + 1,
    decreases s.len(),
{
    if s.len() == 0 {
    } else {
        let i = first_occ(s, '\n');
        lemma_first_occ(s, '\n');
        if 0 <= i && i < s.len() {
            let head = strip_cr(s.take(i));
            let rest = lines_spec(s.skip(i + 1));
            lemma_lines_nonempty_bound(s.skip(i + 1));
            lemma_nonempty_count_cons(head, rest);
            if head.len() > 0 {
                assert(s.take(i).len() == i);
            }
        } else {
            let ls = lines_spec(s);
            assert(ls == seq![s]);
            lemma_nonempty_count_cons(s, Seq::<Seq<char>>::empty());
            assert(seq![s] + Seq::<Seq<char>>::empty() =~~= seq![s]);
            assert(nonempty_count(Seq::<Seq<char>>::empty()) == 0);
        }
    }
}

/// The decimal digit character for `d` in `0 ..= 9`.
pub open spec fn dec_digit(d: int) -> char {
    if d == 0 {
        '0'
    } else if d == 1 {
        '1'
    } else if d == 2 {
        '2'
    } else if d == 3 {
        '3'
    } else if d == 4 {
        '4'
    } else if d == 5 {
        '5'
    } else if d == 6 {
        '6'
    } else if d == 7 {
        '7'
    } else if d == 8 {
        '8'
    } else {
        '9'
    }
}

/// The decimal rendering of a nonnegative `n`, most significant digit first.
pub open spec fn dec_spec(n: int) -> Seq<char>
    decreases n,
{
    if n < 10 {
        seq![dec_digit(n)]
    } else {
        dec_spec(n / 10) + seq![dec_digit(n % 10)]
    }
}

fn digit_str(d: usize) -> (r: &'static str)
    requires
        d < 10,
    ensures
        r@ == seq![dec_digit(d as int)],
{
    proof {
        reveal_strlit("0");
        reveal_strlit("1");
        reveal_strlit("2");
        reveal_strlit("3");
        reveal_strlit("4");
        reveal_strlit("5");
        reveal_strlit("6");
        reveal_strlit("7");
        reveal_strlit("8");
        reveal_strlit("9");
    }
    let r: &'static str = if d == 0 {
        "0"
    } else if d == 1 {
        "1"
    } else if d == 2 {
        "2"
    } else if d == 3 {
        "3"
    } else if d == 4 {
        "4"
    } else if d == 5 {
        "5"
    } else if d == 6 {
        "6"
    } else if d == 7 {
        "7"
    } else if d == 8 {
        "8"
    } else {
        "9"
    };
    proof {
        assert(r@ =~= seq![dec_digit(d as int)]);
    }
    r
}

/// `n` rendered in decimal.
pub fn usize_to_string(n: usize) -> (r: String)
    ensures
        r@ == dec_spec(n as int),
    decreases n,
{
    if n < 10 {
        String::from_str(digit_str(n))
    } else {
        let mut r = usize_to_string(n / 10);
        r.append(digit_str(n % 10));
        r
    }
}

} // verus!
