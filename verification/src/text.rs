//! Character-level helpers on strings: conversion between strings and
//! character vectors, Unicode whitespace and trimming, pattern search,
//! decimal formatting and decimal parsing as std performs them.
use vstd::prelude::*;

verus! {

broadcast use vstd::string::group_string_axioms;

// ---------------------------------------------------------------------------
// Strings and character vectors
// ---------------------------------------------------------------------------

/// Appends one character to a string (`String::push`).
#[verifier::external_body]
pub(crate) fn push_char(s: &mut String, c: char)
    ensures
        final(s)@ == old(s)@.push(c),
{
    s.push(c);
}

/// Appends a string slice to a string.
pub(crate) fn push_text(s: &mut String, t: &str)
    ensures
        final(s)@ == old(s)@ + t@,
{
    s.append(t);
}

/// A fresh string holding the characters of a string slice.
pub fn owned(s: &str) -> (r: String)
    ensures
        r@ == s@,
{
    s.to_owned()
}

/// The characters of a string, in order.
pub fn chars_of(s: &str) -> (v: Vec<char>)
    ensures
        v@ == s@,
{
    let mut v: Vec<char> = Vec::new();
    for c in it: s.chars()
        invariant
            v@ == it.seq().take(it.index()),
    {
        v.push(c);
    }
    v
}

/// The string made of the characters `v[from..to]`.
pub fn string_of_range(v: &Vec<char>, from: usize, to: usize) -> (r: String)
    requires
        from <= to <= v.len(),
    ensures
        r@ == v@.subrange(from as int, to as int),
{
    let mut r = String::new();
    let mut i = from;
    while i < to
        invariant
            from <= i <= to <= v.len(),
            r@ == v@.subrange(from as int, i as int),
        decreases to - i,
    {
        push_char(&mut r, v[i]);
        assert(v@.subrange(from as int, i + 1) == v@.subrange(from as int, i as int).push(v@[i as int]));
        i += 1;
    }
    r
}

/// The characters `v[from..to]`.
pub fn sub_chars(v: &Vec<char>, from: usize, to: usize) -> (r: Vec<char>)
    requires
        from <= to <= v.len(),
    ensures
        r@ == v@.subrange(from as int, to as int),
{
    let mut r: Vec<char> = Vec::new();
    let mut i = from;
    while i < to
        invariant
            from <= i <= to <= v.len(),
            r@ == v@.subrange(from as int, i as int),
        decreases to - i,
    {
        r.push(v[i]);
        assert(v@.subrange(from as int, i + 1) == v@.subrange(from as int, i as int).push(v@[i as int]));
        i += 1;
    }
    r
}

/// Whether two strings hold the same characters.
pub fn same_text(a: &str, b: &str) -> (r: bool)
    ensures
        r == (a@ == b@),
{
    let x = owned(a);
    let y = owned(b);
    x == y
}

// ---------------------------------------------------------------------------
// Whitespace and trimming
// ---------------------------------------------------------------------------

/// Unicode `White_Space`, the set that `char::is_whitespace` and
/// `str::trim` use.
pub open spec fn is_ws(c: char) -> bool {
    let u = c as u32;
    ||| 0x9 <= u <= 0xD
    ||| u == 0x20
    ||| u == 0x85
    ||| u == 0xA0
    ||| u == 0x1680
    ||| 0x2000 <= u <= 0x200A
    ||| u == 0x2028
    ||| u == 0x2029
    ||| u == 0x202F
    ||| u == 0x205F
    ||| u == 0x3000
}

/// A text is blank when it holds whitespace only (its `trim()` is empty).
pub open spec fn is_blank_text(s: Seq<char>) -> bool {
    forall|i: int| 0 <= i < s.len() ==> #[trigger] is_ws(s[i])
}

/// `s` without its leading whitespace.
pub open spec fn trim_start_text(s: Seq<char>) -> Seq<char>
    decreases s.len(),
{
    if s.len() > 0 && is_ws(s[0]) {
        trim_start_text(s.drop_first())
    } else {
        s
    }
}

/// `s` without its trailing whitespace.
pub open spec fn trim_end_text(s: Seq<char>) -> Seq<char>
    decreases s.len(),
{
    if s.len() > 0 && is_ws(s.last()) {
        trim_end_text(s.drop_last())
    } else {
        s
    }
}

/// `s` without leading and trailing whitespace, as `str::trim` gives it.
pub open spec fn trim_text(s: Seq<char>) -> Seq<char> {
    trim_end_text(trim_start_text(s))
}

/// `char::is_whitespace`.
pub fn is_whitespace(c: char) -> (r: bool)
    ensures
        r == is_ws(c),
{
    let u = c as u32;
    (0x9 <= u && u <= 0xD) || u == 0x20 || u == 0x85 || u == 0xA0 || u == 0x1680 || (0x2000
        <= u && u <= 0x200A) || u == 0x2028 || u == 0x2029 || u == 0x202F || u == 0x205F || u
        == 0x3000
}

/// Whether a text holds whitespace only, that is whether `s.trim().is_empty()`.
pub fn is_blank(s: &str) -> (r: bool)
    ensures
        r == is_blank_text(s@),
        r == (trim_text(s@).len() == 0),
{
    let v = chars_of(s);
    let mut i: usize = 0;
    while i < v.len()
        invariant
            i <= v.len(),
            v@ == s@,
            forall|j: int| 0 <= j < i ==> #[trigger] is_ws(v@[j]),
        decreases v.len() - i,
    {
        if !is_whitespace(v[i]) {
            proof {
                lemma_trim_keeps_nonblank(s@, i as int);
            }
            return false;
        }
        i += 1;
    }
    proof {
        lemma_trim_blank(s@);
    }
    true
}

proof fn lemma_trim_start_blank(s: Seq<char>)
    requires
        is_blank_text(s),
    ensures
        trim_start_text(s).len() == 0,
    decreases s.len(),
{
    if s.len() > 0 {
        assert(is_ws(s[0]));
        assert(is_blank_text(s.drop_first())) by {
            assert forall|i: int| 0 <= i < s.drop_first().len() implies #[trigger] is_ws(
                s.drop_first()[i],
            ) by {
                assert(s.drop_first()[i] == s[i + 1]);
            }
        }
        lemma_trim_start_blank(s.drop_first());
    }
}

proof fn lemma_trim_blank(s: Seq<char>)
    requires
        is_blank_text(s),
    ensures
        trim_text(s).len() == 0,
{
    lemma_trim_start_blank(s);
    assert(trim_start_text(s) =~= Seq::<char>::empty());
}

/// Trimming the start keeps a suffix of the text that still holds every
/// character from the first non-whitespace one on.
proof fn lemma_trim_start_keeps(s: Seq<char>, k: int)
    requires
        0 <= k < s.len(),
        !is_ws(s[k]),
    ensures
        trim_start_text(s).len() > 0,
        exists|d: int|
            0 <= d <= k && trim_start_text(s) == s.subrange(d, s.len() as int) && !is_ws(
                #[trigger] s[d],
            ),
    decreases s.len(),
{
    if is_ws(s[0]) {
        lemma_trim_start_keeps(s.drop_first(), k - 1);
        let d = choose|d: int|
            0 <= d <= k - 1 && trim_start_text(s.drop_first()) == s.drop_first().subrange(
                d,
                s.drop_first().len() as int,
            ) && !is_ws(#[trigger] s.drop_first()[d]);
        assert(s.drop_first().subrange(d, s.drop_first().len() as int) == s.subrange(
            d + 1,
            s.len() as int,
        ));
        assert(s.drop_first()[d] == s[d + 1]);
    } else {
        assert(s.subrange(0, s.len() as int) == s);
    }
}

proof fn lemma_trim_end_keeps_first(s: Seq<char>)
    requires
        s.len() > 0,
        !is_ws(s[0]),
    ensures
        trim_end_text(s).len() > 0,
    decreases s.len(),
{
    if is_ws(s.last()) {
        assert(s.len() > 1);
        assert(s.drop_last()[0] == s[0]);
        lemma_trim_end_keeps_first(s.drop_last());
    }
}

/// A text with a non-whitespace character does not trim to nothing.
pub proof fn lemma_trim_keeps_nonblank(s: Seq<char>, k: int)
    requires
        0 <= k < s.len(),
        !is_ws(s[k]),
    ensures
        trim_text(s).len() > 0,
{
    lemma_trim_start_keeps(s, k);
    let d = choose|d: int|
        0 <= d <= k && trim_start_text(s) == s.subrange(d, s.len() as int) && !is_ws(
            #[trigger] s[d],
        );
    assert(trim_start_text(s)[0] == s[d]);
    lemma_trim_end_keeps_first(trim_start_text(s));
}

/// `str::trim`: the text without leading and trailing whitespace.
pub fn trim(s: &str) -> (r: String)
    ensures
        r@ == trim_text(s@),
{
    let v = chars_of(s);
    assert(v@.subrange(0, v.len() as int) == v@);
    let mut start: usize = 0;
    while start < v.len() && is_whitespace(v[start])
        invariant
            start <= v.len(),
            v@ == s@,
            trim_start_text(s@) == trim_start_text(v@.subrange(start as int, v.len() as int)),
        decreases v.len() - start,
    {
        let ghost rest = v@.subrange(start as int, v.len() as int);
        assert(rest.drop_first() == v@.subrange(start + 1, v.len() as int));
        start += 1;
    }
    assert(trim_start_text(s@) == v@.subrange(start as int, v.len() as int));
    let mut end: usize = v.len();
    while end > start && is_whitespace(v[end - 1])
        invariant
            start <= end <= v.len(),
            v@ == s@,
            trim_text(s@) == trim_end_text(v@.subrange(start as int, end as int)),
        decreases end - start,
    {
        let ghost mid = v@.subrange(start as int, end as int);
        assert(mid.drop_last() == v@.subrange(start as int, end - 1));
        assert(mid.last() == v@[end - 1]);
        end -= 1;
    }
    string_of_range(&v, start, end)
}

// ---------------------------------------------------------------------------
// Patterns in character sequences
// ---------------------------------------------------------------------------

/// `p` occurs in `s` at position `i`.
pub open spec fn occurs_at(s: Seq<char>, p: Seq<char>, i: int) -> bool {
    0 <= i && i + p.len() <= s.len() && s.subrange(i, i + p.len()) == p
}

/// `str::starts_with`.
pub open spec fn text_starts_with(s: Seq<char>, p: Seq<char>) -> bool {
    occurs_at(s, p, 0)
}

/// `str::ends_with`.
pub open spec fn text_ends_with(s: Seq<char>, p: Seq<char>) -> bool {
    occurs_at(s, p, s.len() - p.len())
}

/// `str::contains`.
pub open spec fn text_contains(s: Seq<char>, p: Seq<char>) -> bool {
    exists|i: int| occurs_at(s, p, i)
}

/// The first position at or after `from` where `p` occurs in `s`.
pub open spec fn first_occurrence_from(s: Seq<char>, p: Seq<char>, from: int) -> Option<int>
    decreases s.len() - from,
{
    if from < 0 || from + p.len() > s.len() {
        None
    } else if occurs_at(s, p, from) {
        Some(from)
    } else if from >= s.len() {
        None
    } else {
        first_occurrence_from(s, p, from + 1)
    }
}

/// Whether `p` occurs in `v` at position `i`.
pub fn occurs_at_exec(v: &Vec<char>, p: &Vec<char>, i: usize) -> (r: bool)
    ensures
        r == occurs_at(v@, p@, i as int),
{
    if i > v.len() || p.len() > v.len() - i {
        return false;
    }
    let mut k: usize = 0;
    while k < p.len()
        invariant
            k <= p.len(),
            i + p.len() <= v.len(),
            forall|j: int| 0 <= j < k ==> v@[i + j] == p@[j],
        decreases p.len() - k,
    {
        if v[i + k] != p[k] {
            assert(v@.subrange(i as int, i + p.len())[k as int] != p@[k as int]);
            return false;
        }
        k += 1;
    }
    assert(v@.subrange(i as int, i + p.len()) =~= p@);
    true
}

/// Whether `v` starts with `p`.
pub fn starts_with_exec(v: &Vec<char>, p: &Vec<char>) -> (r: bool)
    ensures
        r == text_starts_with(v@, p@),
{
    occurs_at_exec(v, p, 0)
}

/// Whether `v` ends with `p`.
pub fn ends_with_exec(v: &Vec<char>, p: &Vec<char>) -> (r: bool)
    ensures
        r == text_ends_with(v@, p@),
{
    if p.len() > v.len() {
        false
    } else {
        occurs_at_exec(v, p, v.len() - p.len())
    }
}

/// No occurrence at or after `from` when the search finds none.
pub proof fn lemma_first_occurrence_none(s: Seq<char>, p: Seq<char>, from: int)
    requires
        0 <= from,
        first_occurrence_from(s, p, from) is None,
    ensures
        forall|i: int| from <= i ==> !occurs_at(s, p, i),
    decreases s.len() - from,
{
    if from + p.len() <= s.len() && !occurs_at(s, p, from) && from < s.len() {
        lemma_first_occurrence_none(s, p, from + 1);
    }
    assert forall|i: int| from <= i implies !occurs_at(s, p, i) by {
        if i == from && from + p.len() <= s.len() && from >= s.len() {
            assert(p.len() == 0);
        }
    }
}

/// The search finds an occurrence with none before it.
pub proof fn lemma_first_occurrence_some(s: Seq<char>, p: Seq<char>, from: int)
    requires
        0 <= from,
        first_occurrence_from(s, p, from) is Some,
    ensures
        ({
            let i = first_occurrence_from(s, p, from)->0;
            &&& from <= i
            &&& occurs_at(s, p, i)
            &&& forall|j: int| from <= j < i ==> !occurs_at(s, p, j)
        }),
    decreases s.len() - from,
{
    if !occurs_at(s, p, from) && from < s.len() && from + p.len() <= s.len() {
        lemma_first_occurrence_some(s, p, from + 1);
    }
}

/// The first position at or after `from` where `p` occurs in `v`.
pub fn find_from(v: &Vec<char>, p: &Vec<char>, from: usize) -> (r: Option<usize>)
    ensures
        r matches Some(i) ==> first_occurrence_from(v@, p@, from as int) == Some(i as int),
        r is None ==> first_occurrence_from(v@, p@, from as int) is None,
{
    if p.len() > v.len() || from > v.len() - p.len() {
        return None;
    }
    let last = v.len() - p.len();
    let mut i = from;
    loop
        invariant
            from <= i <= last,
            last == v.len() - p.len(),
            first_occurrence_from(v@, p@, from as int) == first_occurrence_from(
                v@,
                p@,
                i as int,
            ),
        decreases last - i,
    {
        if occurs_at_exec(v, p, i) {
            return Some(i);
        }
        if i == last {
            assert(first_occurrence_from(v@, p@, i + 1) is None);
            return None;
        }
        i += 1;
    }
}

/// Whether `p` occurs anywhere in `v`.
pub fn contains_exec(v: &Vec<char>, p: &Vec<char>) -> (r: bool)
    ensures
        r == text_contains(v@, p@),
{
    match find_from(v, p, 0) {
        Some(i) => {
            proof {
                lemma_first_occurrence_some(v@, p@, 0);
            }
            true
        },
        None => {
            proof {
                lemma_first_occurrence_none(v@, p@, 0);
            }
            false
        },
    }
}

// ---------------------------------------------------------------------------
// Decimal numbers
// ---------------------------------------------------------------------------

/// The decimal digit character of `d < 10`.
pub open spec fn digit_char(d: nat) -> char {
    ((48 + d) as u8) as char
}

/// The decimal text of `n` without leading zeros, as `Display` prints it.
pub open spec fn decimal(n: nat) -> Seq<char>
    decreases n,
{
    if n < 10 {
        seq![digit_char(n)]
    } else {
        decimal(n / 10).push(digit_char(n % 10))
    }
}

/// The decimal text of a signed integer: a minus sign before the digits of
/// a negative value.
pub open spec fn signed_decimal(n: int) -> Seq<char> {
    if n < 0 {
        seq!['-'] + decimal((-n) as nat)
    } else {
        decimal(n as nat)
    }
}

/// Appends the decimal text of `n` to `out`.
pub fn push_decimal(out: &mut String, n: u64)
    ensures
        final(out)@ == old(out)@ + decimal(n as nat),
    decreases n,
{
    if n >= 10 {
        push_decimal(out, n / 10);
    }
    let d = (n % 10) as u8;
    push_char(out, (48u8 + d) as char);
    proof {
        if n >= 10 {
            assert(decimal(n as nat) == decimal((n / 10) as nat).push(digit_char((n % 10) as nat)));
        }
    }
}

/// `u64::to_string`.
pub fn u64_text(n: u64) -> (r: String)
    ensures
        r@ == decimal(n as nat),
{
    let mut r = String::new();
    push_decimal(&mut r, n);
    r
}

/// `i64::to_string`.
pub fn i64_text(n: i64) -> (r: String)
    ensures
        r@ == signed_decimal(n as int),
{
    let mut r = String::new();
    if n < 0 {
        push_char(&mut r, '-');
        let m: u64 = if n == i64::MIN {
            9223372036854775808u64
        } else {
            (-n) as u64
        };
        push_decimal(&mut r, m);
    } else {
        push_decimal(&mut r, n as u64);
    }
    r
}

/// An ASCII decimal digit.
pub open spec fn is_digit(c: char) -> bool {
    '0' <= c <= '9'
}

/// The value of a digit character.
pub open spec fn digit_value(c: char) -> nat {
    (c as int - '0' as int) as nat
}

/// Every character is a digit, and there is at least one.
pub open spec fn all_digits(s: Seq<char>) -> bool {
    s.len() > 0 && forall|i: int| 0 <= i < s.len() ==> #[trigger] is_digit(s[i])
}

/// The value of a run of decimal digits.
pub open spec fn digits_value(s: Seq<char>) -> nat
    decreases s.len(),
{
    if s.len() == 0 {
        0
    } else {
        digits_value(s.drop_last()) * 10 + digit_value(s.last())
    }
}

/// What std's integer parsing reads from a text: an optional `+` or `-`
/// followed by one or more decimal digits.
pub open spec fn signed_value(s: Seq<char>) -> Option<int> {
    if s.len() > 0 && (s[0] == '+' || s[0] == '-') {
        if all_digits(s.drop_first()) {
            if s[0] == '-' {
                Some(-digits_value(s.drop_first()))
            } else {
                Some(digits_value(s.drop_first()) as int)
            }
        } else {
            None
        }
    } else if all_digits(s) {
        Some(digits_value(s) as int)
    } else {
        None
    }
}

/// `str::parse::<i64>`: the value when it is in range, else none.
pub open spec fn parsed_i64(s: Seq<char>) -> Option<i64> {
    match signed_value(s) {
        Some(v) => if i64::MIN <= v <= i64::MAX {
            Some(v as i64)
        } else {
            None
        },
        None => None,
    }
}

/// `str::parse::<usize>`: as for signed integers, except that a minus sign
/// is refused.
pub open spec fn parsed_usize(s: Seq<char>) -> Option<usize> {
    if s.len() > 0 && s[0] == '-' {
        None
    } else {
        match signed_value(s) {
            Some(v) => if 0 <= v <= usize::MAX {
                Some(v as usize)
            } else {
                None
            },
            None => None,
        }
    }
}

proof fn lemma_digits_value_prefix(s: Seq<char>, i: int)
    requires
        0 <= i <= s.len(),
    ensures
        digits_value(s.take(i)) <= digits_value(s),
    decreases s.len() - i,
{
    if i < s.len() {
        lemma_digits_value_prefix(s, i + 1);
        assert(s.take(i + 1).drop_last() == s.take(i));
    } else {
        assert(s.take(i) == s);
    }
}

/// The value of the digits `v[from..]` when it does not exceed `limit`.
fn bounded_digits(v: &Vec<char>, from: usize, limit: u64) -> (r: Option<u64>)
    requires
        from <= v.len(),
    ensures
        r matches Some(x) ==> all_digits(v@.subrange(from as int, v.len() as int)) && x
            == digits_value(v@.subrange(from as int, v.len() as int)) && x <= limit,
        r is None ==> !all_digits(v@.subrange(from as int, v.len() as int)) || digits_value(
            v@.subrange(from as int, v.len() as int),
        ) > limit,
{
    let ghost d = v@.subrange(from as int, v.len() as int);
    if from == v.len() {
        return None;
    }
    let mut acc: u128 = 0;
    let mut i = from;
    while i < v.len()
        invariant
            from <= i <= v.len(),
            d == v@.subrange(from as int, v.len() as int),
            forall|j: int| from <= j < i ==> #[trigger] is_digit(v@[j]),
            acc == digits_value(d.take(i - from)),
            acc <= limit,
        decreases v.len() - i,
    {
        let c = v[i];
        if !('0' <= c && c <= '9') {
            assert(!is_digit(d[i - from]));
            return None;
        }
        let dv = (c as u32 - '0' as u32) as u128;
        assert(d.take(i + 1 - from).drop_last() == d.take(i - from));
        assert(d.take(i + 1 - from).last() == c);
        acc = acc * 10 + dv;
        i += 1;
        if acc > limit as u128 {
            proof {
                lemma_digits_value_prefix(d, i - from);
            }
            return None;
        }
    }
    assert(d.take(d.len() as int) == d);
    assert forall|j: int| 0 <= j < d.len() implies #[trigger] is_digit(d[j]) by {
        assert(d[j] == v@[from + j]);
    }
    Some(acc as u64)
}

/// `str::parse::<i64>` (`i64::from_str`).
pub fn parse_i64(s: &str) -> (r: Option<i64>)
    ensures
        r == parsed_i64(s@),
{
    let v = chars_of(s);
    if v.len() > 0 && (v[0] == '+' || v[0] == '-') {
        let negative = v[0] == '-';
        let limit: u64 = if negative {
            9223372036854775808u64
        } else {
            9223372036854775807u64
        };
        assert(v@.drop_first() == v@.subrange(1, v.len() as int));
        match bounded_digits(&v, 1, limit) {
            Some(m) => {
                if negative {
                    Some((0i128 - m as i128) as i64)
                } else {
                    Some(m as i64)
                }
            },
            None => None,
        }
    } else {
        assert(v@ == v@.subrange(0, v.len() as int));
        match bounded_digits(&v, 0, 9223372036854775807u64) {
            Some(m) => Some(m as i64),
            None => None,
        }
    }
}

/// `str::parse::<usize>` (`usize::from_str`).
pub fn parse_usize(s: &str) -> (r: Option<usize>)
    ensures
        r == parsed_usize(s@),
{
    let v = chars_of(s);
    if v.len() > 0 && v[0] == '-' {
        return None;
    }
    let limit = usize::MAX as u64;
    if v.len() > 0 && v[0] == '+' {
        assert(v@.drop_first() == v@.subrange(1, v.len() as int));
        match bounded_digits(&v, 1, limit) {
            Some(m) => Some(m as usize),
            None => None,
        }
    } else {
        assert(v@ == v@.subrange(0, v.len() as int));
        match bounded_digits(&v, 0, limit) {
            Some(m) => Some(m as usize),
            None => None,
        }
    }
}

/// The decimal text of a number reads back as that number.
pub proof fn lemma_decimal_digits(n: nat)
    ensures
        all_digits(decimal(n)),
        digits_value(decimal(n)) == n,
        decimal(n)[0] != '-',
        decimal(n)[0] != '+',
    decreases n,
{
    if n >= 10 {
        lemma_decimal_digits(n / 10);
        let s = decimal(n);
        assert(s.drop_last() == decimal(n / 10));
        assert(s[0] == decimal(n / 10)[0]);
        let d = (n % 10) as nat;
        assert(digit_value(digit_char(d)) == d);
        assert((n / 10) * 10 + n % 10 == n) by (nonlinear_arith);
        assert(s.last() == digit_char(d));
        assert(digits_value(s) == digits_value(s.drop_last()) * 10 + digit_value(s.last()));
        assert(digits_value(s) == (n / 10) * 10 + d);
        assert forall|i: int| 0 <= i < s.len() implies #[trigger] is_digit(s[i]) by {
            if i < s.len() - 1 {
                assert(s[i] == decimal(n / 10)[i]);
            }
        }
    } else {
        assert(decimal(n).drop_last() =~= Seq::<char>::empty());
        assert(digit_value(digit_char(n)) == n);
        assert(decimal(n).last() == digit_char(n));
        assert(digits_value(decimal(n)) == digits_value(decimal(n).drop_last()) * 10
            + digit_value(decimal(n).last()));
    }
}

/// Parsing the decimal text of a number in range gives the number back.
pub proof fn lemma_parse_decimal_roundtrip(n: nat)
    requires
        n <= i64::MAX,
    ensures
        parsed_i64(decimal(n)) == Some(n as i64),
{
    lemma_decimal_digits(n);
}


// ---------------------------------------------------------------------------
// Lists of texts
// ---------------------------------------------------------------------------

/// The texts held by a list of strings.
pub open spec fn texts(v: Seq<String>) -> Seq<Seq<char>> {
    v.map_values(|s: String| s@)
}

/// The parts joined with `sep` between neighbours (`[T]::join`).
pub open spec fn join_texts(parts: Seq<Seq<char>>, sep: Seq<char>) -> Seq<char>
    decreases parts.len(),
{
    if parts.len() == 0 {
        seq![]
    } else if parts.len() == 1 {
        parts[0]
    } else {
        join_texts(parts.drop_last(), sep) + sep + parts.last()
    }
}

/// `parts.join(sep)`.
pub fn join(parts: &Vec<String>, sep: &str) -> (r: String)
    ensures
        r@ == join_texts(texts(parts@), sep@),
{
    let mut r = String::new();
    let ghost all = texts(parts@);
    let mut i: usize = 0;
    while i < parts.len()
        invariant
            i <= parts.len(),
            all == texts(parts@),
            r@ == join_texts(all.take(i as int), sep@),
        decreases parts.len() - i,
    {
        assert(all.take(i + 1).drop_last() == all.take(i as int));
        assert(all.take(i + 1).last() == parts@[i as int]@);
        if i > 0 {
            push_text(&mut r, sep);
        } else {
            assert(all.take(0) =~= Seq::<Seq<char>>::empty());
        }
        push_text(&mut r, parts[i].as_str());
        i += 1;
    }
    assert(all.take(parts.len() as int) == all);
    r
}

/// At most four UTF-8 bytes encode each character.
pub proof fn lemma_utf8_len_bound(s: Seq<char>)
    ensures
        vstd::utf8::encode_utf8(s).len() <= 4 * s.len(),
    decreases s.len(),
{
    if s.len() > 0 {
        lemma_utf8_len_bound(s.drop_first());
    }
}


// ---------------------------------------------------------------------------
// Splitting on a character
// ---------------------------------------------------------------------------

/// The position of the first `c` in `s`.
pub open spec fn index_of_char(s: Seq<char>, c: char) -> Option<int>
    decreases s.len(),
{
    if s.len() == 0 {
        None
    } else if s[0] == c {
        Some(0)
    } else {
        match index_of_char(s.drop_first(), c) {
            Some(i) => Some(i + 1),
            None => None,
        }
    }
}

/// The pieces of `s` between the occurrences of `c` (`str::split`).
pub open spec fn split_on(s: Seq<char>, c: char) -> Seq<Seq<char>>
    decreases s.len(),
{
    match index_of_char(s, c) {
        Some(i) => if 0 <= i < s.len() {
            seq![s.take(i)] + split_on(s.skip(i + 1), c)
        } else {
            seq![s]
        },
        None => seq![s],
    }
}

/// What comes before the first `c` and, when there is one, what comes
/// after it (`str::splitn(2, c)`).
pub open spec fn split_once(s: Seq<char>, c: char) -> (Seq<char>, Option<Seq<char>>) {
    match index_of_char(s, c) {
        Some(i) => (s.take(i), Some(s.skip(i + 1))),
        None => (s, None),
    }
}

/// `index_of_char` finds the first occurrence.
pub proof fn lemma_index_of_char(s: Seq<char>, c: char)
    ensures
        index_of_char(s, c) matches Some(i) ==> 0 <= i < s.len() && s[i] == c && forall|j: int|
            0 <= j < i ==> s[j] != c,
        index_of_char(s, c) is None ==> forall|j: int| 0 <= j < s.len() ==> s[j] != c,
    decreases s.len(),
{
    if s.len() > 0 && s[0] != c {
        lemma_index_of_char(s.drop_first(), c);
        assert forall|j: int| 1 <= j < s.len() implies s[j] == s.drop_first()[j - 1] by {}
    }
}

/// The first occurrence of `c` in `v[from..]`, as a position in `v`.
pub fn find_char(v: &Vec<char>, c: char, from: usize) -> (r: Option<usize>)
    requires
        from <= v.len(),
    ensures
        r matches Some(i) ==> from <= i < v.len() && index_of_char(
            v@.subrange(from as int, v.len() as int),
            c,
        ) == Some(i - from),
        r is None ==> index_of_char(v@.subrange(from as int, v.len() as int), c) is None,
{
    let ghost s = v@.subrange(from as int, v.len() as int);
    proof {
        lemma_index_of_char(s, c);
    }
    let mut i = from;
    while i < v.len()
        invariant
            from <= i <= v.len(),
            s == v@.subrange(from as int, v.len() as int),
            forall|j: int| from <= j < i ==> v@[j] != c,
        decreases v.len() - i,
    {
        if v[i] == c {
            assert(s[i - from] == c);
            assert forall|j: int| 0 <= j < i - from implies s[j] != c by {
                assert(s[j] == v@[from + j]);
            }
            proof {
                lemma_index_of_char(s, c);
                let k = (i - from) as int;
                match index_of_char(s, c) {
                    Some(m) => {
                        if m < k {
                            assert(s[m] == v@[from + m]);
                        } else if m > k {
                            assert(s[k] != c);
                        }
                    },
                    None => {
                        assert(s[k] != c);
                    },
                }
            }
            return Some(i);
        }
        i += 1;
    }
    assert forall|j: int| 0 <= j < s.len() implies s[j] != c by {
        assert(s[j] == v@[from + j]);
    }
    proof {
        lemma_index_of_char(s, c);
        if let Some(m) = index_of_char(s, c) {
            assert(s[m] == c);
        }
    }
    None
}

// ---------------------------------------------------------------------------
// ASCII case folding and UTF-8 input
// ---------------------------------------------------------------------------

/// `char::to_ascii_lowercase`.
pub open spec fn ascii_lower(c: char) -> char {
    if 'A' <= c <= 'Z' {
        ((c as u32) + 32) as char
    } else {
        c
    }
}

/// `str::eq_ignore_ascii_case`: equal once ASCII letters are folded to
/// lower case.
pub open spec fn eq_ignore_ascii_case(a: Seq<char>, b: Seq<char>) -> bool {
    a.len() == b.len() && forall|i: int| 0 <= i < a.len() ==> #[trigger] ascii_lower(a[i]) == ascii_lower(b[i])
}

fn lower_char(c: char) -> (r: char)
    ensures
        r == ascii_lower(c),
{
    if 'A' <= c && c <= 'Z' {
        ((c as u8) + 32) as char
    } else {
        c
    }
}

/// Whether two texts are equal ignoring ASCII case.
pub fn same_text_ignoring_ascii_case(a: &str, b: &str) -> (r: bool)
    ensures
        r == eq_ignore_ascii_case(a@, b@),
{
    let x = chars_of(a);
    let y = chars_of(b);
    if x.len() != y.len() {
        return false;
    }
    let mut i: usize = 0;
    while i < x.len()
        invariant
            i <= x.len(),
            x.len() == y.len(),
            x@ == a@,
            y@ == b@,
            forall|j: int| 0 <= j < i ==> #[trigger] ascii_lower(x@[j]) == ascii_lower(y@[j]),
        decreases x.len() - i,
    {
        if lower_char(x[i]) != lower_char(y[i]) {
            return false;
        }
        i += 1;
    }
    true
}

/// `String::from_utf8`: the text the bytes encode when they are valid
/// UTF-8, else an error whose message (that of `FromUtf8Error`, naming
/// where the bad sequence starts) is left unsaid.
#[verifier::external_body]
pub(crate) fn utf8_text(bytes: Vec<u8>) -> (r: Result<String, String>)
    ensures
        r is Ok <==> vstd::utf8::valid_utf8(bytes@),
        r matches Ok(s) ==> s@ == vstd::utf8::decode_utf8(bytes@),
{
    String::from_utf8(bytes).map_err(|e| e.to_string())
}

// ---------------------------------------------------------------------------
// Replacing and splitting
// ---------------------------------------------------------------------------

/// `s[start..]` with every occurrence of `from` found scanning left to
/// right (occurrences do not overlap) replaced by `to`.
pub open spec fn replace_from(s: Seq<char>, from: Seq<char>, to: Seq<char>, start: int) -> Seq<
    char,
>
    decreases s.len() - start,
{
    if from.len() == 0 || start < 0 || start > s.len() {
        s.subrange(start, s.len() as int)
    } else {
        match first_occurrence_from(s, from, start) {
            Some(i) => if start <= i && i + from.len() <= s.len() {
                s.subrange(start, i) + to + replace_from(s, from, to, i + from.len())
            } else {
                s.subrange(start, s.len() as int)
            },
            None => s.subrange(start, s.len() as int),
        }
    }
}

/// `str::replace(from, to)` for a non-empty pattern.
pub open spec fn replace_all(s: Seq<char>, from: Seq<char>, to: Seq<char>) -> Seq<char> {
    replace_from(s, from, to, 0)
}

/// Replaces every occurrence of `from` in `v` by `to`.
pub fn replace_chars(v: &Vec<char>, from: &Vec<char>, to: &Vec<char>) -> (r: Vec<char>)
    requires
        from.len() > 0,
    ensures
        r@ == replace_all(v@, from@, to@),
{
    let mut out: Vec<char> = Vec::new();
    let mut start: usize = 0;
    loop
        invariant
            start <= v.len(),
            from.len() > 0,
            out@ + replace_from(v@, from@, to@, start as int) == replace_all(v@, from@, to@),
        decreases v.len() - start,
    {
        match find_from(v, from, start) {
            Some(i) => {
                proof {
                    lemma_first_occurrence_some(v@, from@, start as int);
                }
                let mut piece = sub_chars(v, start, i);
                let mut replacement = to.clone();
                let ghost before = out@;
                out.append(&mut piece);
                out.append(&mut replacement);
                assert(out@ == before + v@.subrange(start as int, i as int) + to@);
                start = i + from.len();
            },
            None => {
                let mut piece = sub_chars(v, start, v.len());
                let ghost before = out@;
                out.append(&mut piece);
                assert(out@ == before + v@.subrange(start as int, v.len() as int));
                return out;
            },
        }
    }
}

/// Splits `v` at every `c` (`str::split`).
pub fn split_chars(v: &Vec<char>, c: char) -> (r: Vec<String>)
    ensures
        texts(r@) == split_on(v@, c),
{
    let mut out: Vec<String> = Vec::new();
    let mut start: usize = 0;
    assert(v@.subrange(0, v.len() as int) == v@);
    loop
        invariant
            start <= v.len(),
            split_on(v@, c) == texts(out@) + split_on(v@.subrange(start as int, v.len() as int), c),
        decreases v.len() - start,
    {
        let ghost rest = v@.subrange(start as int, v.len() as int);
        proof {
            lemma_index_of_char(rest, c);
        }
        let found = find_char(v, c, start);
        let end = match found {
            Some(e) => e,
            None => v.len(),
        };
        let piece = string_of_range(v, start, end);
        let ghost before = out@;
        out.push(piece);
        assert(texts(out@) == texts(before).push(piece@));
        match found {
            Some(e) => {
                assert(rest.take(e - start) == piece@);
                assert(rest.skip(e - start + 1) == v@.subrange(e + 1, v.len() as int));
                assert(split_on(rest, c) == seq![piece@] + split_on(
                    v@.subrange(e + 1, v.len() as int),
                    c,
                ));
                assert(texts(before) + split_on(rest, c) == texts(out@) + split_on(
                    v@.subrange(e + 1, v.len() as int),
                    c,
                ));
                start = e + 1;
            },
            None => {
                assert(rest == piece@);
                assert(split_on(rest, c) == seq![piece@]);
                assert(texts(before) + split_on(rest, c) == texts(out@));
                assert(split_on(v@, c) == texts(out@));
                return out;
            },
        }
    }
}

/// The lower-case form of a text (`str::to_lowercase`, Unicode rules).
pub uninterp spec fn lowercase_text(s: Seq<char>) -> Seq<char>;

/// `str::to_lowercase`; its result is named, not spelled out.
#[verifier::external_body]
pub(crate) fn to_lowercase(s: &str) -> (r: String)
    ensures
        r@ == lowercase_text(s@),
{
    s.to_lowercase()
}

} // verus!
