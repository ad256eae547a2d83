//! Character-level text helpers shared by the other modules.
use vstd::prelude::*;

verus! {

/// Appends one character to a `String` with std's `String::push`.
/// Claimed: the new text is the old one followed by `c`.
#[verifier::external_body]
fn push_char(s: &mut String, c: char)
    ensures
        final(s)@ == old(s)@.push(c),
{
    s.push(c);
}

/// The characters of `s`, in order.
pub fn chars_of(s: &str) -> (res: Vec<char>)
    ensures
        res@ == s@,
{
    let mut res: Vec<char> = Vec::new();
    for c in it: s.chars()
        invariant
            res@ == it.seq().take(it.index()),
    {
        res.push(c);
    }
    res
}

/// Appends the characters of `s` to `out`.
pub fn push_str(out: &mut Vec<char>, s: &str)
    ensures
        final(out)@ == old(out)@ + s@,
{
    let cs = chars_of(s);
    let mut i: usize = 0;
    let ghost start = out@;
    while i < cs.len()
        invariant
            i <= cs.len(),
            out@ == start + cs@.take(i as int),
        decreases cs.len() - i,
    {
        out.push(cs[i]);
        assert(cs@.take(i + 1) == cs@.take(i as int).push(cs@[i as int]));
        i += 1;
    }
    assert(cs@.take(cs.len() as int) == cs@);
}

/// A `String` holding exactly the characters of `v`.
pub fn string_of(v: &[char]) -> (res: String)
    ensures
        res@ == v@,
{
    let mut res = String::new();
    let mut i: usize = 0;
    while i < v.len()
        invariant
            i <= v.len(),
            res@ == v@.take(i as int),
        decreases v.len() - i,
    {
        push_char(&mut res, v[i]);
        assert(v@.take(i + 1) == v@.take(i as int).push(v@[i as int]));
        i += 1;
    }
    assert(v@.take(v.len() as int) == v@);
    res
}


/// `p` occurs in `s` starting at position `i`.
pub open spec fn occurs_at(s: Seq<char>, p: Seq<char>, i: int) -> bool {
    0 <= i && i + p.len() <= s.len() && s.subrange(i, i + p.len()) == p
}

/// `p` occurs somewhere in `s` (the empty pattern occurs in every text).
pub open spec fn has_substring(s: Seq<char>, p: Seq<char>) -> bool {
    exists|i: int| occurs_at(s, p, i)
}

/// Whether `p` occurs in `s` at position `i`.
fn matches_at(s: &[char], p: &[char], i: usize) -> (res: bool)
    ensures
        res == occurs_at(s@, p@, i as int),
{
    if i > s.len() || p.len() > s.len() - i {
        return false;
    }
    let mut k: usize = 0;
    while k < p.len()
        invariant
            i + p.len() <= s.len(),
            k <= p.len(),
            forall|j: int| 0 <= j < k ==> s@[i + j] == p@[j],
        decreases p.len() - k,
    {
        if s[i + k] != p[k] {
            assert(s@.subrange(i as int, i + p.len())[k as int] != p@[k as int]);
            return false;
        }
        k += 1;
    }
    assert(s@.subrange(i as int, i + p.len()) =~= p@);
    true
}

/// Whether the character sequence `p` occurs in `s`.
pub fn contains_chars(s: &[char], p: &[char]) -> (res: bool)
    ensures
        res == has_substring(s@, p@),
{
    if p.len() > s.len() {
        assert forall|i: int| !occurs_at(s@, p@, i) by {}
        return false;
    }
    let last = s.len() - p.len();
    let mut i: usize = 0;
    while i < last
        invariant
            last == s.len() - p.len(),
            i <= last,
            forall|j: int| 0 <= j < i ==> !occurs_at(s@, p@, j),
        decreases last - i,
    {
        if matches_at(s, p, i) {
            return true;
        }
        i += 1;
    }
    if matches_at(s, p, last) {
        return true;
    }
    assert forall|j: int| !occurs_at(s@, p@, j) by {
        if 0 <= j && j < i {
        }
    }
    false
}

/// Whether `pattern` occurs in `text` (std's `str::contains` with a string pattern).
pub fn contains(text: &str, pattern: &str) -> (res: bool)
    ensures
        res == has_substring(text@, pattern@),
{
    let t = chars_of(text);
    let p = chars_of(pattern);
    contains_chars(t.as_slice(), p.as_slice())
}

/// Whether two texts hold the same characters.
pub fn same_text(a: &str, b: &str) -> (res: bool)
    ensures
        res == (a@ == b@),
{
    let x: String = a.to_owned();
    let y: String = b.to_owned();
    x == y
}

/// `s` with every non-overlapping occurrence of the non-empty `from`,
/// scanned left to right, replaced by `to`.
pub open spec fn replace_all(s: Seq<char>, from: Seq<char>, to: Seq<char>) -> Seq<char>
    decreases s.len(),
{
    if s.len() == 0 {
        seq![]
    } else if from.len() > 0 && occurs_at(s, from, 0) {
        to + replace_all(s.skip(from.len() as int), from, to)
    } else {
        seq![s[0]] + replace_all(s.skip(1), from, to)
    }
}

proof fn lemma_occurs_shift(s: Seq<char>, p: Seq<char>, i: int)
    requires
        0 <= i <= s.len(),
    ensures
        occurs_at(s.skip(i), p, 0) == occurs_at(s, p, i),
{
    if i + p.len() <= s.len() {
        assert(s.skip(i).subrange(0, p.len() as int) =~= s.subrange(i, i + p.len()));
    }
}

/// `to` before each character of `s` and once more at its end: what
/// replacing the empty pattern gives.
pub open spec fn interleave(s: Seq<char>, to: Seq<char>) -> Seq<char>
    decreases s.len(),
{
    if s.len() == 0 {
        to
    } else {
        to + seq![s[0]] + interleave(s.skip(1), to)
    }
}

/// What std's `str::replace` gives: every non-overlapping occurrence of
/// `from`, scanned left to right, replaced by `to`; for the empty pattern,
/// `to` inserted before every character and at the end.
pub open spec fn str_replace(s: Seq<char>, from: Seq<char>, to: Seq<char>) -> Seq<char> {
    if from.len() == 0 {
        interleave(s, to)
    } else {
        replace_all(s, from, to)
    }
}

fn push_chars(out: &mut Vec<char>, t: &Vec<char>)
    ensures
        final(out)@ == old(out)@ + t@,
{
    let mut k: usize = 0;
    let ghost before = out@;
    while k < t.len()
        invariant
            k <= t.len(),
            out@ == before + t@.take(k as int),
        decreases t.len() - k,
    {
        out.push(t[k]);
        assert(t@.take(k + 1) == t@.take(k as int).push(t@[k as int]));
        k += 1;
    }
    assert(t@.take(t.len() as int) == t@);
}

fn interleave_chars(s: &Vec<char>, t: &Vec<char>) -> (res: Vec<char>)
    ensures
        res@ == interleave(s@, t@),
{
    let mut out: Vec<char> = Vec::new();
    let mut i: usize = 0;
    assert(s@.skip(0) =~= s@);
    while i < s.len()
        invariant
            i <= s.len(),
            out@ + interleave(s@.skip(i as int), t@) == interleave(s@, t@),
        decreases s.len() - i,
    {
        let ghost before = out@;
        let ghost rest = s@.skip(i as int);
        push_chars(&mut out, t);
        out.push(s[i]);
        assert(rest.skip(1) =~= s@.skip(i + 1));
        assert(out@ + interleave(s@.skip(i + 1), t@) =~= before + interleave(rest, t@));
        i += 1;
    }
    assert(s@.skip(s.len() as int) =~= Seq::<char>::empty());
    let ghost before = out@;
    push_chars(&mut out, t);
    assert(out@ =~= before + interleave(s@.skip(s.len() as int), t@));
    out
}

/// `text` with every occurrence of `from` replaced by `to`, as std's
/// `str::replace` does.
pub fn replace(text: &str, from: &str, to: &str) -> (res: String)
    ensures
        res@ == str_replace(text@, from@, to@),
{
    let s = chars_of(text);
    let f = chars_of(from);
    let t = chars_of(to);
    if f.len() == 0 {
        let out = interleave_chars(&s, &t);
        return string_of(out.as_slice());
    }
    let mut out: Vec<char> = Vec::new();
    let mut i: usize = 0;
    assert(s@.skip(0) =~= s@);
    while i < s.len()
        invariant
            i <= s.len(),
            f@.len() > 0,
            out@ + replace_all(s@.skip(i as int), f@, t@) == replace_all(s@, f@, t@),
        decreases s.len() - i,
    {
        proof {
            lemma_occurs_shift(s@, f@, i as int);
        }
        let ghost rest = s@.skip(i as int);
        if matches_at(s.as_slice(), f.as_slice(), i) {
            let mut k: usize = 0;
            let ghost before = out@;
            while k < t.len()
                invariant
                    k <= t.len(),
                    out@ == before + t@.take(k as int),
                decreases t.len() - k,
            {
                out.push(t[k]);
                assert(t@.take(k + 1) == t@.take(k as int).push(t@[k as int]));
                k += 1;
            }
            assert(t@.take(t.len() as int) == t@);
            assert(rest.skip(f@.len() as int) =~= s@.skip(i + f@.len()));
            assert(out@ + replace_all(s@.skip(i + f@.len()), f@, t@) =~= before + replace_all(rest, f@, t@));
            i += f.len();
        } else {
            let ghost before = out@;
            out.push(s[i]);
            assert(rest.skip(1) =~= s@.skip(i + 1));
            assert(out@ + replace_all(s@.skip(i + 1), f@, t@) =~= before + replace_all(rest, f@, t@));
            i += 1;
        }
    }
    assert(s@.skip(s.len() as int) =~= Seq::<char>::empty());
    assert(out@ == replace_all(s@, f@, t@));
    string_of(out.as_slice())
}


/// The ASCII character of decimal digit `d`.
pub open spec fn digit_char(d: nat) -> char {
    (d + 48) as char
}

/// The decimal representation of `n`, without sign or leading zeros.
pub open spec fn decimal(n: nat) -> Seq<char>
    decreases n,
{
    if n < 10 {
        seq![digit_char(n)]
    } else {
        decimal(n / 10).push(digit_char(n % 10))
    }
}

fn digit(d: u32) -> (c: char)
    requires
        d < 10,
    ensures
        c == digit_char(d as nat),
{
    let b: u8 = (d as u8) + 48u8;
    b as char
}

fn push_decimal(out: &mut Vec<char>, n: u32)
    ensures
        final(out)@ == old(out)@ + decimal(n as nat),
    decreases n,
{
    if n >= 10 {
        push_decimal(out, n / 10);
    }
    out.push(digit(n % 10));
}

/// The decimal text of `n` (what `format!("{}", n)` prints).
pub fn u32_to_decimal(n: u32) -> (res: String)
    ensures
        res@ == decimal(n as nat),
{
    let mut out: Vec<char> = Vec::new();
    push_decimal(&mut out, n);
    assert(out@ =~= decimal(n as nat));
    string_of(out.as_slice())
}

/// An ASCII decimal digit.
pub open spec fn is_ascii_digit(c: char) -> bool {
    '0' <= c && c <= '9'
}

/// The value of a decimal digit character.
pub open spec fn digit_value(c: char) -> int {
    c as int - 48
}

/// The value of a string of decimal digits, most significant first.
pub open spec fn digits_value(s: Seq<char>) -> int
    decreases s.len(),
{
    if s.len() == 0 {
        0
    } else {
        10 * digits_value(s.drop_last()) + digit_value(s.last())
    }
}

/// A non-empty string of ASCII decimal digits.
pub open spec fn all_digits(s: Seq<char>) -> bool {
    s.len() > 0 && forall|i: int| 0 <= i < s.len() ==> is_ascii_digit(#[trigger] s[i])
}

/// The integer that `s` spells: an optional `+` or `-` followed by at
/// least one ASCII digit, and nothing else.
pub open spec fn signed_value(s: Seq<char>) -> Option<int> {
    if s.len() > 0 && s[0] == '-' && all_digits(s.drop_first()) {
        Some(-digits_value(s.drop_first()))
    } else if s.len() > 0 && s[0] == '+' && all_digits(s.drop_first()) {
        Some(digits_value(s.drop_first()))
    } else if all_digits(s) {
        Some(digits_value(s))
    } else {
        None
    }
}

/// What std's `str::parse::<i32>` gives, with the error as `None`: the
/// spelled integer when it fits in an `i32`.
pub open spec fn parsed_i32(s: Seq<char>) -> Option<i32> {
    match signed_value(s) {
        Some(v) => if i32::MIN <= v <= i32::MAX {
            Some(v as i32)
        } else {
            None
        },
        None => None,
    }
}

proof fn lemma_digits_prefix_bounded(s: Seq<char>, k: int, m: int)
    requires
        0 <= k <= m <= s.len(),
        forall|i: int| 0 <= i < s.len() ==> is_ascii_digit(#[trigger] s[i]),
    ensures
        0 <= digits_value(s.take(k)) <= digits_value(s.take(m)),
    decreases m,
{
    if m > 0 {
        assert(s.take(m).drop_last() =~= s.take(m - 1));
        if k < m {
            lemma_digits_prefix_bounded(s, k, m - 1);
        } else {
            lemma_digits_prefix_bounded(s, m - 1, m - 1);
        }
        assert(is_ascii_digit(s[m - 1]));
    } else {
        assert(s.take(0) =~= Seq::<char>::empty());
    }
}

/// Parses an `i32` as std's `str::parse::<i32>` does, with `None` for its errors.
pub fn parse_i32(text: &str) -> (res: Option<i32>)
    ensures
        res == parsed_i32(text@),
{
    let s = chars_of(text);
    let n = s.len();
    let mut start: usize = 0;
    let mut negative = false;
    if n > 0 && (s[0] == '-' || s[0] == '+') {
        start = 1;
        negative = s[0] == '-';
    }
    let ghost ds = s@.skip(start as int);
    if start >= n {
        return None;
    }
    let mut k: usize = start;
    while k < n
        invariant
            start <= k <= n,
            n == s@.len(),
            s@ == text@,
            start <= 1,
            n > 0,
            start == 1 ==> (s@[0] == '-' || s@[0] == '+'),
            start == 0 ==> !(s@[0] == '-' || s@[0] == '+'),
            negative == (start == 1 && s@[0] == '-'),
            ds == s@.skip(start as int),
            forall|i: int| 0 <= i < k - start ==> is_ascii_digit(#[trigger] ds[i]),
        decreases n - k,
    {
        if !(s[k] >= '0' && s[k] <= '9') {
            assert(!is_ascii_digit(ds[k - start]));
            assert(!all_digits(ds));
            assert(!is_ascii_digit(s@[0]) || start == 0);
            if start == 1 {
                assert(s@.drop_first() =~= ds);
                assert(!is_ascii_digit(s@[0]));
                assert(!all_digits(s@));
                assert(signed_value(s@).is_none());
            } else {
                assert(s@ =~= ds);
                assert(s@[0] != '-' && s@[0] != '+');
                assert(signed_value(s@).is_none());
            }
            return None;
        }
        k += 1;
    }
    assert(all_digits(ds));
    assert(start == 1 ==> s@.drop_first() =~= ds);
    assert(start == 0 ==> s@ =~= ds);
    let limit: i64 = 2147483648;
    let mut acc: i64 = 0;
    let mut j: usize = start;
    assert(ds.take(0) =~= Seq::<char>::empty());
    while j < n
        invariant
            start <= j <= n,
            n == s@.len(),
            s@ == text@,
            start <= 1,
            n > 0,
            start == 1 ==> (s@[0] == '-' || s@[0] == '+'),
            start == 0 ==> !(s@[0] == '-' || s@[0] == '+'),
            negative == (start == 1 && s@[0] == '-'),
            ds == s@.skip(start as int),
            ds.len() == n - start,
            all_digits(ds),
            0 <= acc <= limit,
            acc == digits_value(ds.take(j - start)),
            start == 1 ==> s@.drop_first() == ds,
            start == 0 ==> s@ == ds,
            limit == 2147483648,
        decreases n - j,
    {
        assert(ds.take(j - start + 1).drop_last() =~= ds.take(j - start));
        assert(is_ascii_digit(ds[j - start]));
        let d: i64 = (s[j] as u32 - 48) as i64;
        let next = acc * 10 + d;
        assert(ds.take(j - start + 1).last() == ds[j - start]);
        assert(next == digits_value(ds.take(j - start + 1)));
        if next > limit {
            proof {
                lemma_digits_prefix_bounded(ds, j - start + 1, ds.len() as int);
                assert(ds.take(ds.len() as int) =~= ds);
            }
            return None;
        }
        acc = next;
        j += 1;
    }
    assert(ds.take(n - start) =~= ds);
    if negative {
        Some((0 - acc) as i32)
    } else if acc < limit {
        Some(acc as i32)
    } else {
        None
    }
}

/// Replacing a pattern that does not occur changes nothing.
pub proof fn law_replace_without_occurrence(s: Seq<char>, from: Seq<char>, to: Seq<char>)
    requires
        from.len() > 0,
        !has_substring(s, from),
    ensures
        replace_all(s, from, to) == s,
    decreases s.len(),
{
    if s.len() > 0 {
        assert(!occurs_at(s, from, 0));
        assert forall|i: int| !occurs_at(s.skip(1), from, i) by {
            if occurs_at(s.skip(1), from, i) {
                assert(s.skip(1).subrange(i, i + from.len()) =~= s.subrange(i + 1, i + 1 + from.len()));
                assert(occurs_at(s, from, i + 1));
            }
        }
        law_replace_without_occurrence(s.skip(1), from, to);
        assert(seq![s[0]] + s.skip(1) =~= s);
    }
}

proof fn lemma_decimal_digits(n: nat)
    ensures
        all_digits(decimal(n)),
        digits_value(decimal(n)) == n,
    decreases n,
{
    assert(digit_char(n % 10) as int == n % 10 + 48);
    if n < 10 {
        let d = decimal(n);
        assert(d.drop_last() =~= Seq::<char>::empty());
        assert(digits_value(d.drop_last()) == 0);
        assert(digits_value(d) == 10 * digits_value(d.drop_last()) + digit_value(d.last()));
    }
    if n >= 10 {
        lemma_decimal_digits(n / 10);
        assert(n == 10 * (n / 10) + n % 10);
        let d = decimal(n);
        assert(d.drop_last() =~= decimal(n / 10));
        assert(d.last() == digit_char(n % 10));
        assert(digits_value(d) == 10 * digits_value(d.drop_last()) + digit_value(d.last()));
        assert forall|i: int| 0 <= i < d.len() implies is_ascii_digit(#[trigger] d[i]) by {
            if i < d.len() - 1 {
                assert(d[i] == decimal(n / 10)[i]);
            }
        }
    }
}

/// Printing a number and parsing it back gives the number: for every
/// `n` that fits in an `i32`, `parse_i32` reads `u32_to_decimal(n)` as `n`.
pub proof fn law_decimal_parses_back(n: nat)
    requires
        n <= i32::MAX,
    ensures
        parsed_i32(decimal(n)) == Some(n as i32),
{
    lemma_decimal_digits(n);
    let d = decimal(n);
    assert(is_ascii_digit(d[0]));
    assert(d[0] != '-' && d[0] != '+');
}

} // verus!
