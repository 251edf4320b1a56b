//! Small string utilities shared by the protocol and configuration modules:
//! appending single characters, ASCII case folding, splitting, trimming,
//! searching, and decimal formatting and parsing.

use vstd::prelude::*;

verus! {

/// Relies on std's `String::push`: appends the given character to the end of
/// the string.
#[verifier::external_body]
pub fn push_char(s: &mut String, c: char)
    ensures
        final(s)@ == old(s)@.push(c),
{
    s.push(c);
}

/// ASCII lower-casing of a single character; anything outside `A`..`Z` is
/// returned unchanged.
pub open spec fn spec_lower_char(c: char) -> char {
    if 'A' <= c && c <= 'Z' {
        ((c as u8) + 32) as char
    } else {
        c
    }
}

/// ASCII upper-casing of a single character; anything outside `a`..`z` is
/// returned unchanged.
pub open spec fn spec_upper_char(c: char) -> char {
    if 'a' <= c && c <= 'z' {
        ((c as u8) - 32) as char
    } else {
        c
    }
}

pub fn lower_char(c: char) -> (r: char)
    ensures
        r == spec_lower_char(c),
{
    if 'A' <= c && c <= 'Z' {
        ((c as u8) + 32) as char
    } else {
        c
    }
}

pub fn upper_char(c: char) -> (r: char)
    ensures
        r == spec_upper_char(c),
{
    if 'a' <= c && c <= 'z' {
        ((c as u8) - 32) as char
    } else {
        c
    }
}

/// ASCII lower-casing of a whole character sequence.
pub open spec fn spec_lower_chars(s: Seq<char>) -> Seq<char> {
    s.map_values(|c: char| spec_lower_char(c))
}

pub fn lower_string(s: &str) -> (r: String)
    ensures
        r@ == spec_lower_chars(s@),
{
    let n = s.unicode_len();
    let mut out = String::new();
    assert(out@ =~= spec_lower_chars(s@).take(0));
    for i in 0..n
        invariant
            n == s@.len(),
            out@ =~= spec_lower_chars(s@).take(i as int),
    {
        let c = s.get_char(i);
        push_char(&mut out, lower_char(c));
        assert(out@ =~= spec_lower_chars(s@).take(i + 1));
    }
    assert(spec_lower_chars(s@).take(n as int) =~= spec_lower_chars(s@));
    out
}

/// ASCII upper-casing of a whole character sequence.
pub open spec fn spec_upper_chars(s: Seq<char>) -> Seq<char> {
    s.map_values(|c: char| spec_upper_char(c))
}

pub fn upper_string(s: &str) -> (r: String)
    ensures
        r@ == spec_upper_chars(s@),
{
    let n = s.unicode_len();
    let mut out = String::new();
    assert(out@ =~= spec_upper_chars(s@).take(0));
    for i in 0..n
        invariant
            n == s@.len(),
            out@ =~= spec_upper_chars(s@).take(i as int),
    {
        let c = s.get_char(i);
        push_char(&mut out, upper_char(c));
        assert(out@ =~= spec_upper_chars(s@).take(i + 1));
    }
    assert(spec_upper_chars(s@).take(n as int) =~= spec_upper_chars(s@));
    out
}

/// ASCII whitespace, as request lines and header fields use it.
pub open spec fn spec_is_ws(c: char) -> bool {
    c == ' ' || c == '\t' || c == '\r' || c == '\n'
}

pub fn is_ws(c: char) -> (r: bool)
    ensures
        r == spec_is_ws(c),
{
    c == ' ' || c == '\t' || c == '\r' || c == '\n'
}

pub open spec fn spec_trim_start(s: Seq<char>) -> Seq<char>
    decreases s.len(),
{
    if s.len() > 0 && spec_is_ws(s[0]) {
        spec_trim_start(s.skip(1))
    } else {
        s
    }
}

pub open spec fn spec_trim_end(s: Seq<char>) -> Seq<char>
    decreases s.len(),
{
    if s.len() > 0 && spec_is_ws(s.last()) {
        spec_trim_end(s.drop_last())
    } else {
        s
    }
}

/// The sequence with its leading and trailing ASCII whitespace removed.
pub open spec fn spec_trim(s: Seq<char>) -> Seq<char> {
    spec_trim_end(spec_trim_start(s))
}

proof fn lemma_trim_start_skip(s: Seq<char>, a: int)
    requires
        0 <= a <= s.len(),
        forall|k: int| 0 <= k < a ==> spec_is_ws(#[trigger] s[k]),
        a < s.len() ==> !spec_is_ws(s[a]),
    ensures
        spec_trim_start(s) == s.skip(a),
    decreases a,
{
    if a == 0 {
        assert(s.skip(0) =~= s);
    } else {
        assert(spec_is_ws(s[0]));
        assert(s.skip(1).skip(a - 1) =~= s.skip(a));
        assert(forall|k: int| 0 <= k < a - 1 ==> #[trigger] s.skip(1)[k] == s[k + 1]);
        lemma_trim_start_skip(s.skip(1), a - 1);
    }
}

proof fn lemma_trim_end_take(s: Seq<char>, b: int)
    requires
        -1 <= b < s.len(),
        forall|k: int| b < k < s.len() ==> spec_is_ws(#[trigger] s[k]),
        b >= 0 ==> !spec_is_ws(s[b]),
    ensures
        spec_trim_end(s) == s.take(b + 1),
    decreases s.len() - b,
{
    if b == s.len() - 1 {
        assert(s.take(b + 1) =~= s);
    } else {
        assert(spec_is_ws(s.last()));
        assert(s.drop_last().take(b + 1) =~= s.take(b + 1));
        lemma_trim_end_take(s.drop_last(), b);
    }
}

/// Removes leading and trailing ASCII whitespace.
pub fn trim_str(s: &str) -> (r: String)
    ensures
        r@ == spec_trim(s@),
{
    let n = s.unicode_len();
    let mut a: usize = 0;
    while a < n && is_ws(s.get_char(a))
        invariant
            n == s@.len(),
            a <= n,
            forall|k: int| 0 <= k < a ==> spec_is_ws(#[trigger] s@[k]),
        decreases n - a,
    {
        a = a + 1;
    }
    if a == n {
        proof {
            lemma_trim_start_skip(s@, a as int);
            assert(s@.skip(a as int) =~= Seq::<char>::empty());
        }
        return String::new();
    }
    let mut b: usize = n - 1;
    while b > a && is_ws(s.get_char(b))
        invariant
            n == s@.len(),
            a <= b < n,
            forall|k: int| b < k < n ==> spec_is_ws(#[trigger] s@[k]),
        decreases b,
    {
        b = b - 1;
    }
    let mut out = String::new();
    let mut i: usize = a;
    while i <= b
        invariant
            n == s@.len(),
            a <= i <= b + 1,
            b < n,
            out@ =~= s@.subrange(a as int, i as int),
        decreases b + 1 - i,
    {
        push_char(&mut out, s.get_char(i));
        i = i + 1;
        proof {
            assert(s@.subrange(a as int, i as int) =~= s@.subrange(a as int, i - 1).push(
                s@[i - 1],
            ));
        }
    }
    proof {
        lemma_trim_start_skip(s@, a as int);
        assert(!spec_is_ws(s@[b as int]));
        assert(forall|k: int| 0 <= k < b - a ==> #[trigger] s@.skip(a as int)[k] == s@[k + a]);
        assert(s@.skip(a as int).last() == s@[n - 1]);
        lemma_trim_end_take(s@.skip(a as int), b - a as int);
        assert(s@.skip(a as int).take(b - a + 1) =~= s@.subrange(a as int, b + 1));
    }
    out
}

/// Splits `s` on `sep`; the result always has one more part than there are
/// separators, so splitting an empty sequence yields one empty part.
pub open spec fn spec_split(s: Seq<char>, sep: char) -> Seq<Seq<char>>
    decreases s.len(),
{
    if s.len() == 0 {
        seq![Seq::<char>::empty()]
    } else if s[0] == sep {
        seq![Seq::<char>::empty()] + spec_split(s.drop_first(), sep)
    } else {
        let rest = spec_split(s.drop_first(), sep);
        seq![seq![s[0]] + rest[0]] + rest.skip(1)
    }
}

pub proof fn lemma_split_nonempty(s: Seq<char>, sep: char)
    ensures
        spec_split(s, sep).len() >= 1,
    decreases s.len(),
{
    if s.len() > 0 {
        lemma_split_nonempty(s.drop_first(), sep);
    }
}

/// The views of the parts produced by [`split_str`].
pub open spec fn spec_views(parts: Seq<String>) -> Seq<Seq<char>> {
    parts.map_values(|p: String| p@)
}

/// Splits a string on a separator character.
pub fn split_str(s: &str, from: usize, sep: char) -> (parts: Vec<String>)
    requires
        from <= s@.len(),
    ensures
        spec_views(parts@) == spec_split(s@.skip(from as int), sep),
        parts@.len() >= 1,
    decreases s@.len() - from,
{
    proof {
        lemma_split_nonempty(s@.skip(from as int), sep);
    }
    if from == s.unicode_len() {
        let mut parts: Vec<String> = Vec::new();
        parts.push(String::new());
        assert(spec_views(parts@) =~= spec_split(s@.skip(from as int), sep));
        parts
    } else {
        let c = s.get_char(from);
        proof {
            assert(s@.skip(from as int).drop_first() =~= s@.skip(from as int + 1));
        }
        if c == sep {
            let mut rest = split_str(s, from + 1, sep);
            rest.insert(0, String::new());
            assert(spec_views(rest@) =~= spec_split(s@.skip(from as int), sep));
            rest
        } else {
            let mut rest = split_str(s, from + 1, sep);
            let mut first = String::new();
            push_char(&mut first, c);
            first.append(rest[0].as_str());
            rest.set(0, first);
            assert(spec_views(rest@) =~= spec_split(s@.skip(from as int), sep));
            rest
        }
    }
}

/// Copies a character range of a string.
pub fn substr(s: &str, from: usize, to: usize) -> (r: String)
    requires
        from <= to <= s@.len(),
    ensures
        r@ == s@.subrange(from as int, to as int),
{
    let mut out = String::new();
    let mut i: usize = from;
    while i < to
        invariant
            from <= i <= to <= s@.len(),
            out@ =~= s@.subrange(from as int, i as int),
        decreases to - i,
    {
        push_char(&mut out, s.get_char(i));
        i = i + 1;
        proof {
            assert(s@.subrange(from as int, i as int) =~= s@.subrange(from as int, i - 1).push(
                s@[i - 1],
            ));
        }
    }
    out
}

/// The first index where `c` occurs, or a negative value when it does not.
pub open spec fn spec_find_char(s: Seq<char>, c: char) -> int
    decreases s.len(),
{
    if s.len() == 0 {
        -1
    } else if s[0] == c {
        0
    } else {
        let r = spec_find_char(s.skip(1), c);
        if r < 0 {
            -1
        } else {
            r + 1
        }
    }
}

proof fn lemma_find_char_at(s: Seq<char>, c: char, i: int)
    requires
        0 <= i <= s.len(),
        forall|k: int| 0 <= k < i ==> #[trigger] s[k] != c,
        i < s.len() ==> s[i] == c,
    ensures
        i < s.len() ==> spec_find_char(s, c) == i,
        i == s.len() ==> spec_find_char(s, c) == -1,
    decreases i + 1,
{
    if s.len() == 0 {
    } else if i == 0 {
        if s.len() > 0 && s[0] != c {
            // i == 0 == s.len() is impossible here since s.len() > 0
        }
    } else {
        assert(s[0] != c);
        assert(forall|k: int| 0 <= k < i - 1 ==> #[trigger] s.skip(1)[k] == s[k + 1]);
        assert(i - 1 < s.skip(1).len() ==> s.skip(1)[i - 1] == s[i]);
        lemma_find_char_at(s.skip(1), c, i - 1);
    }
}

/// Finds the first occurrence of a character.
pub fn find_char(s: &str, c: char) -> (r: Option<usize>)
    ensures
        match r {
            Some(i) => i < s@.len() && spec_find_char(s@, c) == i as int,
            None => spec_find_char(s@, c) == -1,
        },
{
    let n = s.unicode_len();
    for i in 0..n
        invariant
            n == s@.len(),
            forall|k: int| 0 <= k < i ==> #[trigger] s@[k] != c,
    {
        if s.get_char(i) == c {
            proof {
                lemma_find_char_at(s@, c, i as int);
            }
            return Some(i);
        }
    }
    proof {
        lemma_find_char_at(s@, c, n as int);
    }
    None
}

/// The decimal digit character for a value below ten.
pub open spec fn spec_digit_char(d: u8) -> char {
    (d + 48) as char
}

pub fn digit_char(d: u8) -> (r: char)
    requires
        d < 10,
    ensures
        r == spec_digit_char(d),
{
    (d + 48) as char
}

/// The usual decimal rendering of a natural number, most significant digit
/// first, with no sign and no leading zeros (zero itself is "0").
pub open spec fn spec_dec_string(n: nat) -> Seq<char>
    decreases n,
{
    if n < 10 {
        seq![spec_digit_char(n as u8)]
    } else {
        spec_dec_string(n / 10).push(spec_digit_char((n % 10) as u8))
    }
}

pub fn format_u64(n: u64) -> (r: String)
    ensures
        r@ == spec_dec_string(n as nat),
    decreases n,
{
    if n < 10 {
        let mut s = String::new();
        push_char(&mut s, digit_char((n % 10) as u8));
        s
    } else {
        let mut s = format_u64(n / 10);
        push_char(&mut s, digit_char((n % 10) as u8));
        s
    }
}

pub open spec fn spec_is_dec_digit(c: char) -> bool {
    '0' <= c && c <= '9'
}

pub fn is_dec_digit(c: char) -> (r: bool)
    ensures
        r == spec_is_dec_digit(c),
{
    '0' <= c && c <= '9'
}

pub open spec fn spec_dec_digit_val(c: char) -> nat {
    ((c as u8) - 48) as nat
}

pub open spec fn spec_all_dec_digits(s: Seq<char>) -> bool {
    forall|i: int| 0 <= i < s.len() ==> spec_is_dec_digit(#[trigger] s[i])
}

/// The numeric value of a digit string, reading left to right.
pub open spec fn spec_dec_val(s: Seq<char>) -> nat
    decreases s.len(),
{
    if s.len() == 0 {
        0
    } else {
        spec_dec_val(s.drop_last()) * 10 + spec_dec_digit_val(s.last())
    }
}

proof fn lemma_dec_val_monotonic(s: Seq<char>, i: int)
    requires
        0 <= i <= s.len(),
    ensures
        spec_dec_val(s.take(i)) <= spec_dec_val(s),
    decreases s.len() - i,
{
    if i < s.len() {
        assert(s.take(i + 1).drop_last() =~= s.take(i));
        assert(spec_dec_val(s.take(i)) <= spec_dec_val(s.take(i + 1)));
        lemma_dec_val_monotonic(s, i + 1);
    } else {
        assert(s.take(i) =~= s);
    }
}

/// Parses an unsigned decimal port-sized number: an optional leading plus
/// sign, then one or more digits, and the value must fit in a `u16`.
pub open spec fn spec_parse_u16(s: Seq<char>) -> Option<u16> {
    let digits = if s.len() > 0 && s[0] == '+' {
        s.skip(1)
    } else {
        s
    };
    if digits.len() > 0 && spec_all_dec_digits(digits) && spec_dec_val(digits) <= 0xffff {
        Some(spec_dec_val(digits) as u16)
    } else {
        None
    }
}

pub fn parse_u16(s: &str) -> (r: Option<u16>)
    ensures
        r == spec_parse_u16(s@),
{
    let n = s.unicode_len();
    let start: usize = if n > 0 && s.get_char(0) == '+' {
        1
    } else {
        0
    };
    let ghost digits = if s@.len() > 0 && s@[0] == '+' {
        s@.skip(1)
    } else {
        s@
    };
    proof {
        assert(digits =~= s@.subrange(start as int, n as int));
    }
    if start == n {
        return None;
    }
    let mut acc: u32 = 0;
    let mut i: usize = start;
    while i < n
        invariant
            n == s@.len(),
            start <= i <= n,
            start < n,
            digits == (if s@.len() > 0 && s@[0] == '+' {
                s@.skip(1)
            } else {
                s@
            }),
            digits =~= s@.subrange(start as int, n as int),
            acc <= 0xffff,
            spec_all_dec_digits(digits.take(i - start)),
            acc == spec_dec_val(digits.take(i - start)),
        decreases n - i,
    {
        let c = s.get_char(i);
        proof {
            assert(digits[i - start] == s@[i as int]);
        }
        if !is_dec_digit(c) {
            assert(!spec_all_dec_digits(digits));
            return None;
        }
        let d = (c as u8) - 48;
        let next = acc * 10 + (d as u32);
        assert(digits.take(i + 1 - start).drop_last() =~= digits.take(i - start));
        assert(digits.take(i + 1 - start).last() == digits[i - start]);
        if next > 0xffff {
            proof {
                lemma_dec_val_monotonic(digits, i + 1 - start);
            }
            return None;
        }
        acc = next;
        i = i + 1;
    }
    assert(digits.take(n - start) =~= digits);
    Some(acc as u16)
}

} // verus!
