//! Character-level helpers: decimal numbers, whitespace, and the conversion
//! of text between `&str`, `String` and `Vec<char>`.

use vstd::prelude::*;

verus! {

/// The character of a decimal digit.
pub open spec fn digit_char(d: int) -> char {
    (48 + d) as char
}

/// Whether `c` is an ASCII decimal digit.
pub open spec fn is_digit(c: char) -> bool {
    48 <= (c as int) <= 57
}

/// The value of an ASCII decimal digit.
pub open spec fn digit_value(c: char) -> int {
    (c as int) - 48
}

/// The shortest decimal representation of `n`, without sign.
pub open spec fn decimal(n: nat) -> Seq<char>
    decreases n,
{
    if n < 10 {
        seq![digit_char(n as int)]
    } else {
        decimal(n / 10).push(digit_char((n % 10) as int))
    }
}

/// The number that a sequence of decimal digits denotes.
pub open spec fn digits_value(s: Seq<char>) -> int
    decreases s.len(),
{
    if s.len() == 0 {
        0
    } else {
        digits_value(s.drop_last()) * 10 + digit_value(s.last())
    }
}

pub open spec fn all_digits(s: Seq<char>) -> bool {
    forall|i: int| 0 <= i < s.len() ==> is_digit(#[trigger] s[i])
}

/// The digits of an unsigned number in text: a leading `+` is dropped.
pub open spec fn unsigned_digits(s: Seq<char>) -> Seq<char> {
    if s.len() > 0 && s[0] == '+' {
        s.drop_first()
    } else {
        s
    }
}

/// The `u64` that `s` denotes as `str::parse::<u64>` reads it: an optional
/// `+`, then one or more decimal digits whose value fits in 64 bits.
pub open spec fn parsed_u64(s: Seq<char>) -> Option<u64> {
    let body = unsigned_digits(s);
    if body.len() > 0 && all_digits(body) && digits_value(body) <= u64::MAX {
        Some(digits_value(body) as u64)
    } else {
        None
    }
}


/// Whether `c` is white space, as `char::is_whitespace` says: the characters
/// with Unicode's `White_Space` property.
pub open spec fn is_whitespace(c: char) -> bool {
    ||| ('\u{9}' <= c && c <= '\u{d}')
    ||| c == ' '
    ||| c == '\u{85}'
    ||| c == '\u{a0}'
    ||| c == '\u{1680}'
    ||| ('\u{2000}' <= c && c <= '\u{200a}')
    ||| c == '\u{2028}'
    ||| c == '\u{2029}'
    ||| c == '\u{202f}'
    ||| c == '\u{205f}'
    ||| c == '\u{3000}'
}

/// Whether `c` is white space (`char::is_whitespace`).
pub fn whitespace(c: char) -> (r: bool)
    ensures
        r == is_whitespace(c),
{
    ('\u{9}' <= c && c <= '\u{d}') || c == ' ' || c == '\u{85}' || c == '\u{a0}'
        || c == '\u{1680}' || ('\u{2000}' <= c && c <= '\u{200a}') || c == '\u{2028}'
        || c == '\u{2029}' || c == '\u{202f}' || c == '\u{205f}' || c == '\u{3000}'
}

/// The longest end of `s` all of whose characters satisfy `keep`.
pub open spec fn tail_while(s: Seq<char>, keep: spec_fn(char) -> bool) -> Seq<char>
    decreases s.len(),
{
    if s.len() == 0 || !keep(s.last()) {
        Seq::empty()
    } else {
        tail_while(s.drop_last(), keep).push(s.last())
    }
}

proof fn lemma_tail_while_step(v: Seq<char>, lo: int, i: int, hi: int, keep: spec_fn(char) -> bool)
    requires
        0 <= lo < i <= hi <= v.len(),
        tail_while(v.subrange(lo, hi), keep) == tail_while(v.subrange(lo, i), keep) + v.subrange(i, hi),
        keep(v[i - 1]),
    ensures
        tail_while(v.subrange(lo, hi), keep) == tail_while(v.subrange(lo, i - 1), keep) + v.subrange(i - 1, hi),
{
    let w = v.subrange(lo, i);
    assert(w.drop_last() =~= v.subrange(lo, i - 1));
    assert(w.last() == v[i - 1]);
    assert(tail_while(w, keep) == tail_while(v.subrange(lo, i - 1), keep).push(v[i - 1]));
    assert(tail_while(v.subrange(lo, i - 1), keep).push(v[i - 1]) + v.subrange(i, hi)
        =~= tail_while(v.subrange(lo, i - 1), keep) + v.subrange(i - 1, hi));
}

proof fn lemma_tail_while_stop(v: Seq<char>, lo: int, i: int, hi: int, keep: spec_fn(char) -> bool)
    requires
        0 <= lo <= i <= hi <= v.len(),
        tail_while(v.subrange(lo, hi), keep) == tail_while(v.subrange(lo, i), keep) + v.subrange(i, hi),
        i == lo || !keep(v[i - 1]),
    ensures
        tail_while(v.subrange(lo, hi), keep) == v.subrange(i, hi),
{
    let w = v.subrange(lo, i);
    if i > lo {
        assert(w.last() == v[i - 1]);
    }
    assert(tail_while(w, keep) =~= Seq::<char>::empty());
    assert(Seq::<char>::empty() + v.subrange(i, hi) =~= v.subrange(i, hi));
}

/// Where the longest end of `v[lo..hi]` that holds no `c` begins.
pub fn scan_back_to(v: &Vec<char>, lo: usize, hi: usize, c: char) -> (i: usize)
    requires
        lo <= hi <= v.len(),
    ensures
        lo <= i <= hi,
        v@.subrange(i as int, hi as int) == tail_while(v@.subrange(lo as int, hi as int), |x: char| x != c),
{
    let ghost keep = |x: char| x != c;
    let mut i = hi;
    assert(v@.subrange(hi as int, hi as int) =~= Seq::<char>::empty());
    assert(tail_while(v@.subrange(lo as int, hi as int), keep) =~= tail_while(v@.subrange(lo as int, hi as int), keep) + Seq::<char>::empty());
    while i > lo && v[i - 1] != c
        invariant
            keep == (|x: char| x != c),
            lo <= i <= hi <= v.len(),
            tail_while(v@.subrange(lo as int, hi as int), keep) == tail_while(v@.subrange(lo as int, i as int), keep) + v@.subrange(i as int, hi as int),
        decreases i,
    {
        proof {
            lemma_tail_while_step(v@, lo as int, i as int, hi as int, keep);
        }
        i = i - 1;
    }
    proof {
        lemma_tail_while_stop(v@, lo as int, i as int, hi as int, keep);
    }
    i
}

/// Where the longest end of `v[lo..hi]` whose characters are white space
/// (if `space`) or not white space (if not `space`) begins.
pub fn scan_back_space(v: &Vec<char>, lo: usize, hi: usize, space: bool) -> (i: usize)
    requires
        lo <= hi <= v.len(),
    ensures
        lo <= i <= hi,
        v@.subrange(i as int, hi as int) == tail_while(v@.subrange(lo as int, hi as int), |x: char| is_whitespace(x) == space),
{
    let ghost keep = |x: char| is_whitespace(x) == space;
    let mut i = hi;
    assert(v@.subrange(hi as int, hi as int) =~= Seq::<char>::empty());
    assert(tail_while(v@.subrange(lo as int, hi as int), keep) =~= tail_while(v@.subrange(lo as int, hi as int), keep) + Seq::<char>::empty());
    while i > lo && whitespace(v[i - 1]) == space
        invariant
            keep == (|x: char| is_whitespace(x) == space),
            lo <= i <= hi <= v.len(),
            tail_while(v@.subrange(lo as int, hi as int), keep) == tail_while(v@.subrange(lo as int, i as int), keep) + v@.subrange(i as int, hi as int),
        decreases i,
    {
        proof {
            lemma_tail_while_step(v@, lo as int, i as int, hi as int, keep);
        }
        i = i - 1;
    }
    proof {
        lemma_tail_while_stop(v@, lo as int, i as int, hi as int, keep);
    }
    i
}

/// Appends `c` to `s` (`String::push`).
#[verifier::external_body]
pub(crate) fn push_char(s: &mut String, c: char)
    ensures
        final(s)@ == old(s)@.push(c),
{
    s.push(c);
}

/// The characters of `s`, in order.
pub fn chars_of(s: &str) -> (v: Vec<char>)
    ensures
        v@ == s@,
{
    let mut v: Vec<char> = Vec::new();
    for c in it: s.chars()
        invariant
            it.seq() == s@,
            v@ == it.seq().take(it.index() as int),
    {
        v.push(c);
    }
    v
}

/// The string made of the characters of `v`.
pub fn string_of(v: &Vec<char>) -> (s: String)
    ensures
        s@ == v@,
{
    let mut s = String::new();
    let mut i: usize = 0;
    while i < v.len()
        invariant
            i <= v.len(),
            s@ == v@.take(i as int),
        decreases v.len() - i,
    {
        push_char(&mut s, v[i]);
        i = i + 1;
        assert(v@.take(i as int) == v@.take(i - 1).push(v@[i - 1]));
    }
    assert(v@.take(v.len() as int) == v@);
    s
}

/// The characters of `v` from `from` up to `to`, as a string.
pub fn string_of_range(v: &Vec<char>, from: usize, to: usize) -> (s: String)
    requires
        from <= to <= v.len(),
    ensures
        s@ == v@.subrange(from as int, to as int),
{
    let mut s = String::new();
    let mut i: usize = from;
    while i < to
        invariant
            from <= i <= to <= v.len(),
            s@ == v@.subrange(from as int, i as int),
        decreases to - i,
    {
        push_char(&mut s, v[i]);
        i = i + 1;
        assert(v@.subrange(from as int, i as int) == v@.subrange(from as int, i - 1).push(v@[i - 1]));
    }
    s
}

/// Whether the two texts hold the same characters.
pub fn same_text(a: &str, b: &str) -> (r: bool)
    ensures
        r == (a@ == b@),
{
    let x = chars_of(a);
    let y = chars_of(b);
    if x.len() != y.len() {
        return false;
    }
    let mut i: usize = 0;
    while i < x.len()
        invariant
            x.len() == y.len(),
            x@ == a@,
            y@ == b@,
            i <= x.len(),
            forall|j: int| 0 <= j < i ==> x@[j] == y@[j],
        decreases x.len() - i,
    {
        if x[i] != y[i] {
            return false;
        }
        i = i + 1;
    }
    assert(x@ =~= y@);
    true
}

fn digit_of(d: u64) -> (c: char)
    requires
        d < 10,
    ensures
        c == digit_char(d as int),
{
    match d {
        0 => '0',
        1 => '1',
        2 => '2',
        3 => '3',
        4 => '4',
        5 => '5',
        6 => '6',
        7 => '7',
        8 => '8',
        _ => '9',
    }
}

/// The decimal representation of `n`, as `n.to_string()` writes it.
pub fn decimal_string(n: u64) -> (s: String)
    ensures
        s@ == decimal(n as nat),
    decreases n,
{
    if n < 10 {
        let mut s = String::new();
        push_char(&mut s, digit_of(n));
        assert(s@ =~= seq![digit_char(n as int)]);
        s
    } else {
        let mut s = decimal_string(n / 10);
        push_char(&mut s, digit_of(n % 10));
        s
    }
}

proof fn lemma_digits_value_take(s: Seq<char>, k: int)
    requires
        0 <= k < s.len(),
    ensures
        digits_value(s.take(k + 1)) == digits_value(s.take(k)) * 10 + digit_value(s[k]),
{
    assert(s.take(k + 1).drop_last() =~= s.take(k));
    assert(s.take(k + 1).last() == s[k]);
}

proof fn lemma_digits_value_nonneg(s: Seq<char>)
    requires
        forall|i: int| 0 <= i < s.len() ==> is_digit(#[trigger] s[i]),
    ensures
        digits_value(s) >= 0,
    decreases s.len(),
{
    if s.len() > 0 {
        let t = s.drop_last();
        assert forall|i: int| 0 <= i < t.len() implies is_digit(#[trigger] t[i]) by {
            assert(t[i] == s[i]);
        }
        lemma_digits_value_nonneg(t);
        assert(is_digit(s[s.len() - 1]));
    }
}

proof fn lemma_digits_value_prefix_bound(s: Seq<char>, k: int)
    requires
        0 <= k <= s.len(),
        all_digits(s),
    ensures
        digits_value(s.take(k)) <= digits_value(s),
    decreases s.len() - k,
{
    if k < s.len() {
        lemma_digits_value_take(s, k);
        assert(is_digit(s[k]));
        lemma_digits_value_nonneg(s.take(k));
        lemma_digits_value_prefix_bound(s, k + 1);
    } else {
        assert(s.take(k) =~= s);
    }
}

/// Reads `s` as an unsigned 64-bit number, as `str::parse::<u64>` does.
pub fn parse_u64(s: &str) -> (r: Option<u64>)
    ensures
        r == parsed_u64(s@),
{
    let v = chars_of(s);
    let n = v.len();
    let start: usize = if n > 0 && v[0] == '+' { 1 } else { 0 };
    let ghost body = unsigned_digits(s@);
    assert(body =~= v@.subrange(start as int, n as int));
    if start == n {
        return None;
    }
    let mut acc: u64 = 0;
    let mut i: usize = start;
    while i < n
        invariant
            v@ == s@,
            n == v.len(),
            body == v@.subrange(start as int, n as int),
            body == unsigned_digits(s@),
            start <= i <= n,
            all_digits(body.take(i - start)),
            acc == digits_value(body.take(i - start)),
        decreases n - i,
    {
        let c = v[i];
        if c < '0' || c > '9' {
            assert(body[i - start] == c);
            assert(!is_digit(body[i - start]));
            assert(!all_digits(body));
            return None;
        }
        proof {
            assert(is_digit(c));
            lemma_digits_value_take(body, i - start);
            assert(body[i - start] == c);
            assert(body.take(i - start + 1) =~= body.take(i - start).push(c));
            assert forall|j: int| 0 <= j < body.take(i - start + 1).len() implies is_digit(
                #[trigger] body.take(i - start + 1)[j],
            ) by {
                if j < i - start {
                    assert(body.take(i - start + 1)[j] == body.take(i - start)[j]);
                } else {
                    assert(body.take(i - start + 1)[j] == c);
                }
            }
        }
        let d = (c as u32 - 48) as u64;
        let prod = acc.checked_mul(10);
        match prod {
            None => {
                proof {
                    if all_digits(body) {
                        lemma_digits_value_prefix_bound(body, i - start + 1);
                    }
                }
                return None;
            },
            Some(p) => {
                match p.checked_add(d) {
                    None => {
                        proof {
                            if all_digits(body) {
                                lemma_digits_value_prefix_bound(body, i - start + 1);
                            }
                        }
                        return None;
                    },
                    Some(x) => {
                        acc = x;
                    },
                }
            },
        }
        i = i + 1;
    }
    assert(body.take(n - start) =~= body);
    Some(acc)
}

proof fn lemma_digit_char_value(d: int)
    requires
        0 <= d < 10,
    ensures
        is_digit(digit_char(d)),
        digit_value(digit_char(d)) == d,
        digit_char(d) != '+',
{
}

proof fn lemma_decimal_digits(n: nat)
    ensures
        decimal(n).len() > 0,
        all_digits(decimal(n)),
        digits_value(decimal(n)) == n,
        decimal(n)[0] != '+',
    decreases n,
{
    lemma_digit_char_value((n % 10) as int);
    if n < 10 {
        assert(n % 10 == n);
        assert(decimal(n).drop_last() =~= Seq::<char>::empty());
        assert(digits_value(decimal(n)) == digits_value(Seq::<char>::empty()) * 10 + digit_value(digit_char(n as int)));
    } else {
        assert(n == (n / 10) * 10 + n % 10) by (nonlinear_arith);
        lemma_decimal_digits(n / 10);
        let d = decimal(n);
        assert(d.drop_last() =~= decimal(n / 10));
        assert(d.last() == digit_char((n % 10) as int));
        assert(digits_value(d) == digits_value(decimal(n / 10)) * 10 + (n % 10) as int);
        assert forall|i: int| 0 <= i < d.len() implies is_digit(#[trigger] d[i]) by {
            if i < d.len() - 1 {
                assert(d[i] == decimal(n / 10)[i]);
            }
        }
    }
}

/// Reading back what `decimal_string` writes gives the number again.
pub proof fn lemma_parse_decimal_roundtrip(n: u64)
    ensures
        parsed_u64(decimal(n as nat)) == Some(n),
{
    lemma_decimal_digits(n as nat);
}

} // verus!
