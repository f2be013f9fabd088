//! Text helpers over character sequences.
//!
//! Strings are modelled by their `Seq<char>` view. The executable helpers work
//! on character vectors so that every scan is a plain indexed loop.

use vstd::prelude::*;
use vstd::string::*;
use vstd::utf8::{decode_utf8, valid_utf8};

verus! {

broadcast use vstd::string::group_string_axioms;

/// Appending one character to a string (`String::push`) extends its
/// character sequence by exactly that character.
pub assume_specification[ std::string::String::push ](s: &mut std::string::String, ch: char)
    ensures
        final(s)@ == old(s)@.push(ch),
;

/// `pat` occurs in `s` at position `at`.
pub open spec fn matches_at<T>(s: Seq<T>, at: int, pat: Seq<T>) -> bool {
    0 <= at && at + pat.len() <= s.len() && s.subrange(at, at + pat.len()) == pat
}

/// `s` begins with `prefix`.
pub open spec fn starts_with<T>(s: Seq<T>, prefix: Seq<T>) -> bool {
    matches_at(s, 0, prefix)
}

/// `s` ends with `suffix`.
pub open spec fn ends_with<T>(s: Seq<T>, suffix: Seq<T>) -> bool {
    matches_at(s, s.len() - suffix.len(), suffix)
}

/// `s` without a trailing `suffix`; `s` itself when it does not end with it.
pub open spec fn strip_suffix<T>(s: Seq<T>, suffix: Seq<T>) -> Seq<T> {
    if ends_with(s, suffix) {
        s.take(s.len() - suffix.len())
    } else {
        s
    }
}

/// Position of the first `c` in `s` at or after `from`, or `s.len()`.
pub open spec fn find_from(s: Seq<char>, c: char, from: int) -> int
    decreases s.len() - from,
{
    if from < 0 || from >= s.len() {
        s.len() as int
    } else if s[from] == c {
        from
    } else {
        find_from(s, c, from + 1)
    }
}

/// Position of the last `c` in `s` strictly before `before`, or `-1`.
pub open spec fn rfind_before(s: Seq<char>, c: char, before: int) -> int
    decreases before,
{
    if before <= 0 || before > s.len() {
        -1
    } else if s[before - 1] == c {
        before - 1
    } else {
        rfind_before(s, c, before - 1)
    }
}

/// The first line of `s`: everything before the first line feed, without
/// one carriage return directly in front of that line feed. A text without
/// a line feed is its own first line.
pub open spec fn first_line(s: Seq<char>) -> Seq<char> {
    let nl = find_from(s, '\n', 0);
    if nl < s.len() && nl > 0 && s[nl - 1] == '\r' {
        s.take(nl - 1)
    } else {
        s.take(nl)
    }
}

/// `s` split at its last line feed: what stands before it and what stands
/// after it. `None` when `s` holds no line feed.
pub open spec fn split_last_line(s: Seq<char>) -> Option<(Seq<char>, Seq<char>)> {
    let nl = rfind_before(s, '\n', s.len() as int);
    if nl < 0 {
        None
    } else {
        Some((s.take(nl), s.skip(nl + 1)))
    }
}

/// `s` from position `from` on, with every occurrence of the pattern `pat`
/// replaced by `with`, scanning left to right without overlap. An empty
/// pattern occurs nowhere.
pub open spec fn replace_from(s: Seq<char>, pat: Seq<char>, with: Seq<char>, from: int) -> Seq<char>
    decreases s.len() - from,
{
    if from < 0 || from >= s.len() {
        Seq::empty()
    } else if pat.len() == 0 {
        s.skip(from)
    } else if matches_at(s, from, pat) {
        with + replace_from(s, pat, with, from + pat.len())
    } else {
        seq![s[from]] + replace_from(s, pat, with, from + 1)
    }
}

/// `s` with every occurrence of the pattern `pat` removed.
pub open spec fn remove_all(s: Seq<char>, pat: Seq<char>) -> Seq<char> {
    replace_from(s, pat, Seq::empty(), 0)
}

/// The decimal digit for `d`, `0 <= d < 10`.
pub open spec fn digit_char(d: int) -> char {
    if d == 0 {
        '0'
    } else if d == 1 {
        '1'
    } else if d == 2 {
        '2'
    } else if d == 3 {
        '3'
    } else if d == 4 {
        '4'
    } else if d == 5 {
        '5'
    } else if d == 6 {
        '6'
    } else if d == 7 {
        '7'
    } else if d == 8 {
        '8'
    } else {
        '9'
    }
}

/// The decimal numeral of `n`, without leading zeros.
pub open spec fn decimal(n: nat) -> Seq<char>
    decreases n,
{
    if n < 10 {
        seq![digit_char(n as int)]
    } else {
        decimal(n / 10).push(digit_char((n % 10) as int))
    }
}

/// The characters of `s`, in order.
pub fn to_chars(s: &str) -> (v: Vec<char>)
    ensures
        v@ == s@,
{
    let mut v: Vec<char> = Vec::new();
    for c in it: s.chars()
        invariant
            v@ == it.history(),
            it.seq() == s@,
    {
        v.push(c);
    }
    assert(v@ =~= s@);
    v
}

/// The string made of the characters of `v`, in order.
pub fn from_chars(v: &[char]) -> (s: String)
    ensures
        s@ == v@,
{
    let mut s = String::new();
    let mut i: usize = 0;
    while i < v.len()
        invariant
            i <= v.len(),
            s@ == v@.take(i as int),
        decreases v.len() - i,
    {
        s.push(v[i]);
        i += 1;
        assert(v@.take(i as int) =~= v@.take(i - 1).push(v@[i - 1]));
    }
    assert(v@.take(v.len() as int) =~= v@);
    s
}

/// Whether `pat` occurs in `s` at position `at`.
pub fn chars_match_at(s: &[char], at: usize, pat: &[char]) -> (r: bool)
    ensures
        r == matches_at(s@, at as int, pat@),
{
    if pat.len() > s.len() || at > s.len() - pat.len() {
        return false;
    }
    let mut i: usize = 0;
    while i < pat.len()
        invariant
            i <= pat.len(),
            at + pat.len() <= s.len(),
            s@.subrange(at as int, at + i) == pat@.take(i as int),
        decreases pat.len() - i,
    {
        if s[at + i] != pat[i] {
            proof {
                let sub = s@.subrange(at as int, at + pat.len());
                assert(sub[i as int] == s@[at + i]);
            }
            return false;
        }
        i += 1;
        assert(s@.subrange(at as int, at + i) =~= s@.subrange(at as int, at + i - 1).push(
            s@[at + i - 1],
        ));
        assert(pat@.take(i as int) =~= pat@.take(i - 1).push(pat@[i - 1]));
    }
    assert(pat@.take(pat.len() as int) =~= pat@);
    true
}

/// Whether the two texts hold the same characters.
pub fn str_eq(a: &str, b: &str) -> (r: bool)
    ensures
        r == (a@ == b@),
{
    let av = to_chars(a);
    let bv = to_chars(b);
    if av.len() != bv.len() {
        return false;
    }
    let r = chars_match_at(av.as_slice(), 0, bv.as_slice());
    assert(av@.subrange(0, av@.len() as int) =~= av@);
    r
}

/// Whether `s` begins with `prefix`.
pub fn str_starts_with(s: &str, prefix: &str) -> (r: bool)
    ensures
        r == starts_with(s@, prefix@),
{
    let sv = to_chars(s);
    let pv = to_chars(prefix);
    chars_match_at(sv.as_slice(), 0, pv.as_slice())
}

/// Whether `s` ends with `suffix`.
pub fn str_ends_with(s: &str, suffix: &str) -> (r: bool)
    ensures
        r == ends_with(s@, suffix@),
{
    let sv = to_chars(s);
    let pv = to_chars(suffix);
    if pv.len() > sv.len() {
        return false;
    }
    chars_match_at(sv.as_slice(), sv.len() - pv.len(), pv.as_slice())
}

/// The characters of `s` from `from` up to, not including, `to`.
pub fn chars_range(s: &[char], from: usize, to: usize) -> (r: Vec<char>)
    requires
        from <= to <= s.len(),
    ensures
        r@ == s@.subrange(from as int, to as int),
{
    let mut r: Vec<char> = Vec::new();
    let mut i: usize = from;
    while i < to
        invariant
            from <= i <= to <= s.len(),
            r@ == s@.subrange(from as int, i as int),
        decreases to - i,
    {
        r.push(s[i]);
        i += 1;
        assert(s@.subrange(from as int, i as int) =~= s@.subrange(from as int, i - 1).push(
            s@[i - 1],
        ));
    }
    r
}

/// `s` without a trailing `suffix`; a copy of `s` when it does not end with it.
pub fn str_strip_suffix(s: &str, suffix: &str) -> (r: String)
    ensures
        r@ == strip_suffix(s@, suffix@),
{
    let sv = to_chars(s);
    let pv = to_chars(suffix);
    if pv.len() <= sv.len() && chars_match_at(sv.as_slice(), sv.len() - pv.len(), pv.as_slice()) {
        let kept = chars_range(sv.as_slice(), 0, sv.len() - pv.len());
        from_chars(kept.as_slice())
    } else {
        s.to_owned()
    }
}

/// The two texts joined, `a` first.
pub fn str_concat(a: &str, b: &str) -> (r: String)
    ensures
        r@ == a@ + b@,
{
    let mut r = a.to_owned();
    r.append(b);
    r
}

/// Position of the first `c` in `s` at or after `from`, or the length of `s`.
pub fn chars_find_from(s: &[char], c: char, from: usize) -> (r: usize)
    ensures
        r == find_from(s@, c, from as int),
        from <= s.len() ==> from <= r <= s.len(),
{
    let mut i: usize = from;
    while i < s.len()
        invariant
            from <= i,
            find_from(s@, c, from as int) == find_from(s@, c, i as int),
        decreases s.len() - i,
    {
        if s[i] == c {
            return i;
        }
        i += 1;
    }
    s.len()
}

/// Position after which the last `c` of `s` strictly before `before` stands:
/// `Some(p)` with `s[p] == c`, or `None` when there is none.
pub fn chars_rfind(s: &[char], c: char) -> (r: Option<usize>)
    ensures
        match r {
            Some(p) => p < s.len() && p == rfind_before(s@, c, s.len() as int),
            None => rfind_before(s@, c, s.len() as int) == -1,
        },
{
    let mut i: usize = s.len();
    while i > 0
        invariant
            i <= s.len(),
            rfind_before(s@, c, s.len() as int) == rfind_before(s@, c, i as int),
        decreases i,
    {
        if s[i - 1] == c {
            return Some(i - 1);
        }
        i -= 1;
    }
    None
}

/// The first line of `s`.
pub fn str_first_line(s: &str) -> (r: String)
    ensures
        r@ == first_line(s@),
{
    let sv = to_chars(s);
    let nl = chars_find_from(sv.as_slice(), '\n', 0);
    let end = if nl < sv.len() && nl > 0 && sv[nl - 1] == '\r' {
        nl - 1
    } else {
        nl
    };
    let kept = chars_range(sv.as_slice(), 0, end);
    from_chars(kept.as_slice())
}

/// `s` split at its last line feed, or `None` when it holds none.
pub fn str_split_last_line(s: &str) -> (r: Option<(String, String)>)
    ensures
        match r {
            Some((head, tail)) => split_last_line(s@) == Some((head@, tail@)),
            None => split_last_line(s@) is None,
        },
{
    let sv = to_chars(s);
    match chars_rfind(sv.as_slice(), '\n') {
        Some(p) => {
            let head = chars_range(sv.as_slice(), 0, p);
            let tail = chars_range(sv.as_slice(), p + 1, sv.len());
            Some((from_chars(head.as_slice()), from_chars(tail.as_slice())))
        },
        None => None,
    }
}

/// `s` with every occurrence of the pattern `pat` removed, scanning left to
/// right.
pub fn str_remove_all(s: &str, pat: &str) -> (r: String)
    ensures
        r@ == remove_all(s@, pat@),
{
    let sv = to_chars(s);
    let pv = to_chars(pat);
    let mut out: Vec<char> = Vec::new();
    if pv.len() == 0 {
        assert(remove_all(s@, pat@) =~= s@);
        return s.to_owned();
    }
    let mut i: usize = 0;
    while i < sv.len()
        invariant
            i <= sv.len(),
            pv.len() > 0,
            remove_all(sv@, pv@) == out@ + replace_from(sv@, pv@, Seq::empty(), i as int),
        decreases sv.len() - i,
    {
        if chars_match_at(sv.as_slice(), i, pv.as_slice()) {
            assert(out@ + (Seq::<char>::empty() + replace_from(
                sv@,
                pv@,
                Seq::empty(),
                i + pv.len(),
            )) =~= out@ + replace_from(sv@, pv@, Seq::empty(), i + pv.len()));
            i += pv.len();
        } else {
            out.push(sv[i]);
            assert(out@ + replace_from(sv@, pv@, Seq::empty(), i + 1) =~= out@.drop_last() + (
            seq![sv@[i as int]] + replace_from(sv@, pv@, Seq::empty(), i + 1)));
            i += 1;
        }
    }
    assert(out@ + Seq::<char>::empty() =~= out@);
    from_chars(out.as_slice())
}

/// The decimal numeral of `n`.
pub fn decimal_string(n: usize) -> (r: String)
    ensures
        r@ == decimal(n as nat),
{
    let mut digits: Vec<char> = Vec::new();
    let mut rest: usize = n;
    // Collect the digits from the last to the first.
    while rest >= 10
        invariant
            decimal(n as nat) == decimal(rest as nat) + digits@.reverse(),
        decreases rest,
    {
        let d: usize = rest % 10;
        let c = digit_of(d);
        proof {
            let old_tail = digits@.reverse();
            let new_tail = digits@.push(c).reverse();
            assert(new_tail =~= seq![c] + old_tail);
            assert(decimal(rest as nat) == decimal((rest / 10) as nat).push(c));
            assert(decimal((rest / 10) as nat).push(c) + old_tail =~= decimal((rest / 10) as nat)
                + new_tail);
        }
        digits.push(c);
        rest = rest / 10;
    }
    let c = digit_of(rest);
    proof {
        let old_tail = digits@.reverse();
        let new_tail = digits@.push(c).reverse();
        assert(new_tail =~= seq![c] + old_tail);
        assert(decimal(rest as nat) =~= seq![c]);
    }
    digits.push(c);
    let mut out: Vec<char> = Vec::new();
    let mut i: usize = digits.len();
    while i > 0
        invariant
            i <= digits.len(),
            out@ == digits@.reverse().take(digits.len() - i),
        decreases i,
    {
        i -= 1;
        out.push(digits[i]);
        assert(digits@.reverse().take(digits.len() - i) =~= digits@.reverse().take(
            digits.len() - i - 1,
        ).push(digits@[i as int]));
    }
    assert(digits@.reverse().take(digits.len() as int) =~= digits@.reverse());
    from_chars(out.as_slice())
}

/// Decodes `bytes` as UTF-8 (`std::str::from_utf8`): a string with exactly
/// the characters that the bytes encode when they are well-formed UTF-8, and
/// nothing otherwise.
#[verifier::external_body]
pub(crate) fn utf8_to_string(bytes: &[u8]) -> (r: Option<String>)
    ensures
        r is Some <==> valid_utf8(bytes@),
        r matches Some(s) ==> s@ == decode_utf8(bytes@),
{
    match std::str::from_utf8(bytes) {
        Ok(s) => Some(s.to_string()),
        Err(_) => None,
    }
}

/// Whether `s` begins with `prefix`.
pub fn bytes_start_with(s: &[u8], prefix: &[u8]) -> (r: bool)
    ensures
        r == starts_with(s@, prefix@),
{
    if prefix.len() > s.len() {
        return false;
    }
    let mut i: usize = 0;
    while i < prefix.len()
        invariant
            i <= prefix.len() <= s.len(),
            s@.subrange(0, i as int) == prefix@.take(i as int),
        decreases prefix.len() - i,
    {
        if s[i] != prefix[i] {
            proof {
                let sub = s@.subrange(0, prefix.len() as int);
                assert(sub[i as int] == s@[i as int]);
            }
            return false;
        }
        i += 1;
        assert(s@.subrange(0, i as int) =~= s@.subrange(0, i - 1).push(s@[i - 1]));
        assert(prefix@.take(i as int) =~= prefix@.take(i - 1).push(prefix@[i - 1]));
    }
    assert(prefix@.take(prefix.len() as int) =~= prefix@);
    true
}

/// The decimal digit for `d`.
fn digit_of(d: usize) -> (c: char)
    requires
        d < 10,
    ensures
        c == digit_char(d as int),
{
    if d == 0 {
        '0'
    } else if d == 1 {
        '1'
    } else if d == 2 {
        '2'
    } else if d == 3 {
        '3'
    } else if d == 4 {
        '4'
    } else if d == 5 {
        '5'
    } else if d == 6 {
        '6'
    } else if d == 7 {
        '7'
    } else if d == 8 {
        '8'
    } else {
        '9'
    }
}

} // verus!
