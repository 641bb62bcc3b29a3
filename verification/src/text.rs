//! Text helpers shared by the protocol code: character views of strings,
//! prefix and substring tests, and decimal and hexadecimal formatting.

use vstd::prelude::*;
use vstd::std_specs::iter::IteratorSpec;

verus! {

broadcast use vstd::string::group_string_axioms;

/// Whether `s` begins with `prefix`.
pub open spec fn has_prefix<T>(s: Seq<T>, prefix: Seq<T>) -> bool {
    prefix.len() <= s.len() && s.take(prefix.len() as int) == prefix
}

/// Whether `pattern` occurs in `s` starting at index `at`.
pub open spec fn occurs_at<T>(s: Seq<T>, pattern: Seq<T>, at: int) -> bool {
    0 <= at && at + pattern.len() <= s.len() && s.subrange(at, at + pattern.len()) == pattern
}

/// Whether `pattern` occurs anywhere in `s`.
pub open spec fn occurs<T>(s: Seq<T>, pattern: Seq<T>) -> bool {
    exists|at: int| occurs_at(s, pattern, at)
}

/// The characters of `s`, in order.
pub fn chars_of(s: &str) -> (r: Vec<char>)
    ensures
        r@ == s@,
{
    let mut chars = s.chars();
    let mut r: Vec<char> = Vec::new();
    loop
        invariant
            s@ == r@ + chars.remaining(),
            chars.obeys_prophetic_iter_laws(),
            chars.decrease() is Some,
        ensures
            s@ == r@,
        decreases chars.decrease()->0,
    {
        let ghost before = chars.remaining();
        match chars.next() {
            Some(c) => {
                r.push(c);
                assert(s@ == r@ + chars.remaining()) by {
                    assert(before == seq![c] + chars.remaining());
                }
            },
            None => {
                assert(chars.remaining().len() == 0);
                assert(s@ == r@);
                break ;
            },
        }
    }
    r
}

/// Whether `a` and `b` hold the same characters.
pub fn chars_equal(a: &[char], b: &[char]) -> (r: bool)
    ensures
        r == (a@ == b@),
{
    if a.len() != b.len() {
        return false;
    }
    let mut i: usize = 0;
    while i < a.len()
        invariant
            i <= a@.len(),
            a@.len() == b@.len(),
            forall|j: int| 0 <= j < i ==> a@[j] == b@[j],
        decreases a@.len() - i,
    {
        if a[i] != b[i] {
            return false;
        }
        i += 1;
    }
    assert(a@ =~= b@);
    true
}

/// Whether `a` and `b` are the same string.
pub fn str_equal(a: &str, b: &str) -> (r: bool)
    ensures
        r == (a@ == b@),
{
    let x = chars_of(a);
    let y = chars_of(b);
    chars_equal(x.as_slice(), y.as_slice())
}

/// Whether `pattern` occurs in `s` at index `at`.
pub fn chars_occur_at(s: &[char], pattern: &[char], at: usize) -> (r: bool)
    ensures
        r == occurs_at(s@, pattern@, at as int),
{
    if at > s.len() || pattern.len() > s.len() - at {
        return false;
    }
    let mut i: usize = 0;
    while i < pattern.len()
        invariant
            i <= pattern@.len(),
            at + pattern.len() <= s.len(),
            forall|j: int| 0 <= j < i ==> s@[at + j] == pattern@[j],
        decreases pattern@.len() - i,
    {
        if s[at + i] != pattern[i] {
            assert(s@.subrange(at as int, at + pattern@.len())[i as int] != pattern@[i as int]);
            return false;
        }
        i += 1;
    }
    assert(s@.subrange(at as int, at + pattern@.len()) =~= pattern@);
    true
}

/// Whether `s` begins with `prefix`.
pub fn chars_start_with(s: &[char], prefix: &[char]) -> (r: bool)
    ensures
        r == has_prefix(s@, prefix@),
{
    let r = chars_occur_at(s, prefix, 0);
    assert(s@.subrange(0, prefix@.len() as int) == s@.take(prefix@.len() as int));
    r
}

/// Whether the string `s` begins with `prefix`.
pub fn str_starts_with(s: &str, prefix: &str) -> (r: bool)
    ensures
        r == has_prefix(s@, prefix@),
{
    let x = chars_of(s);
    let y = chars_of(prefix);
    chars_start_with(x.as_slice(), y.as_slice())
}

/// The first index at which `pattern` occurs in `s`, if any.
pub fn chars_find(s: &[char], pattern: &[char]) -> (r: Option<usize>)
    ensures
        match r {
            Some(at) => occurs_at(s@, pattern@, at as int) && forall|j: int|
                0 <= j < at ==> !#[trigger] occurs_at(s@, pattern@, j),
            None => !occurs(s@, pattern@),
        },
{
    let mut at: usize = 0;
    loop
        invariant
            at <= s.len(),
            forall|j: int| 0 <= j < at ==> !#[trigger] occurs_at(s@, pattern@, j),
        ensures
            forall|j: int| 0 <= j <= s@.len() ==> !#[trigger] occurs_at(s@, pattern@, j),
        decreases s@.len() - at,
    {
        if chars_occur_at(s, pattern, at) {
            return Some(at);
        }
        if at == s.len() {
            break ;
        }
        at += 1;
    }
    assert forall|j: int| !occurs_at(s@, pattern@, j) by {
        if 0 <= j <= s@.len() {
        }
    }
    None
}

/// Whether `pattern` occurs anywhere in `s`.
pub fn chars_contain(s: &[char], pattern: &[char]) -> (r: bool)
    ensures
        r == occurs(s@, pattern@),
{
    chars_find(s, pattern).is_some()
}

/// Appends `c` to `s`.
#[verifier::external_body]
pub(crate) fn push_char(s: &mut String, c: char)
    ensures
        final(s)@ == old(s)@.push(c),
{
    s.push(c);
}

/// Appends the characters `cs` to `s`.
pub fn push_chars(s: &mut String, cs: &[char])
    ensures
        final(s)@ == old(s)@ + cs@,
{
    let ghost start = s@;
    let mut i: usize = 0;
    while i < cs.len()
        invariant
            i <= cs@.len(),
            s@ == start + cs@.take(i as int),
        decreases cs@.len() - i,
    {
        push_char(s, cs[i]);
        assert(cs@.take(i + 1) == cs@.take(i as int).push(cs@[i as int]));
        i += 1;
    }
    assert(cs@.take(cs@.len() as int) == cs@);
}

/// Appends the string `t` to `s`.
pub fn push_str(s: &mut String, t: &str)
    ensures
        final(s)@ == old(s)@ + t@,
{
    s.append(t);
}

/// The digit character for `d < 16`, lower case.
pub open spec fn hex_digit(d: int) -> char {
    if d < 10 {
        (d + 48) as char
    } else {
        (d + 87) as char
    }
}

/// The decimal representation of `n`, without leading zeros.
pub open spec fn decimal(n: nat) -> Seq<char>
    decreases n,
{
    if n < 10 {
        seq![hex_digit(n as int)]
    } else {
        decimal(n / 10).push(hex_digit((n % 10) as int))
    }
}

fn digit_char(d: u64) -> (r: char)
    requires
        d < 16,
    ensures
        r == hex_digit(d as int),
{
    if d < 10 {
        ((d + 48) as u8) as char
    } else {
        ((d + 87) as u8) as char
    }
}

/// The decimal digits of `n`.
pub fn decimal_chars(n: u64) -> (r: Vec<char>)
    ensures
        r@ == decimal(n as nat),
    decreases n,
{
    if n < 10 {
        let mut v = Vec::new();
        v.push(digit_char(n));
        v
    } else {
        let mut v = decimal_chars(n / 10);
        v.push(digit_char(n % 10));
        v
    }
}

/// Appends the decimal representation of `n` to `s`.
pub fn push_decimal(s: &mut String, n: u64)
    ensures
        final(s)@ == old(s)@ + decimal(n as nat),
{
    let digits = decimal_chars(n);
    push_chars(s, digits.as_slice());
}

/// The two lower-case hexadecimal digits of `b`.
pub open spec fn hex_byte(b: u8) -> Seq<char> {
    seq![hex_digit((b / 16) as int), hex_digit((b % 16) as int)]
}

/// The lower-case hexadecimal representation of `bytes`, two digits each.
pub open spec fn hex(bytes: Seq<u8>) -> Seq<char>
    decreases bytes.len(),
{
    if bytes.len() == 0 {
        seq![]
    } else {
        hex(bytes.drop_last()) + hex_byte(bytes.last())
    }
}

/// Appends `bytes` to `s` as lower-case hexadecimal, two digits per byte.
pub fn push_hex(s: &mut String, bytes: &[u8])
    ensures
        final(s)@ == old(s)@ + hex(bytes@),
{
    let ghost start = s@;
    let mut i: usize = 0;
    while i < bytes.len()
        invariant
            i <= bytes@.len(),
            s@ == start + hex(bytes@.take(i as int)),
        decreases bytes@.len() - i,
    {
        let b = bytes[i];
        push_char(s, digit_char((b / 16) as u64));
        push_char(s, digit_char((b % 16) as u64));
        assert(bytes@.take(i + 1).drop_last() == bytes@.take(i as int));
        i += 1;
    }
    assert(bytes@.take(bytes@.len() as int) == bytes@);
}


/// Whether `c` is white space in the Unicode sense (`char::is_whitespace`).
pub open spec fn is_white_space(c: char) -> bool {
    let u = c as u32;
    (0x9 <= u <= 0xd) || u == 0x20 || u == 0x85 || u == 0xa0 || u == 0x1680 || (0x2000 <= u
        <= 0x200a) || u == 0x2028 || u == 0x2029 || u == 0x202f || u == 0x205f || u == 0x3000
}

fn white_space(c: char) -> (r: bool)
    ensures
        r == is_white_space(c),
{
    let u = c as u32;
    (0x9 <= u && u <= 0xd) || u == 0x20 || u == 0x85 || u == 0xa0 || u == 0x1680 || (0x2000 <= u
        && u <= 0x200a) || u == 0x2028 || u == 0x2029 || u == 0x202f || u == 0x205f || u == 0x3000
}

/// The number of white-space characters at the start of `s`.
pub open spec fn leading_white_space(s: Seq<char>) -> nat
    decreases s.len(),
{
    if s.len() > 0 && is_white_space(s[0]) {
        1 + leading_white_space(s.drop_first())
    } else {
        0
    }
}

/// The number of white-space characters at the end of `s`.
pub open spec fn trailing_white_space(s: Seq<char>) -> nat
    decreases s.len(),
{
    if s.len() > 0 && is_white_space(s.last()) {
        1 + trailing_white_space(s.drop_last())
    } else {
        0
    }
}

/// `s` without leading and trailing white space (`str::trim`).
pub open spec fn trim(s: Seq<char>) -> Seq<char> {
    let front = s.skip(leading_white_space(s) as int);
    front.take(front.len() - trailing_white_space(front))
}

proof fn lemma_leading_bound(s: Seq<char>)
    ensures
        leading_white_space(s) <= s.len(),
    decreases s.len(),
{
    if s.len() > 0 && is_white_space(s[0]) {
        lemma_leading_bound(s.drop_first());
    }
}

proof fn lemma_trailing_bound(s: Seq<char>)
    ensures
        trailing_white_space(s) <= s.len(),
    decreases s.len(),
{
    if s.len() > 0 && is_white_space(s.last()) {
        lemma_trailing_bound(s.drop_last());
    }
}

fn count_leading_white_space(s: &[char], from: usize) -> (r: usize)
    requires
        from <= s@.len(),
    ensures
        r == from + leading_white_space(s@.skip(from as int)),
        r <= s@.len(),
    decreases s@.len() - from,
{
    if from < s.len() && white_space(s[from]) {
        assert(s@.skip(from as int).drop_first() == s@.skip(from + 1));
        count_leading_white_space(s, from + 1)
    } else {
        from
    }
}

fn count_trailing_white_space(s: &[char], end: usize) -> (r: usize)
    requires
        end <= s@.len(),
    ensures
        r == trailing_white_space(s@.take(end as int)),
        r <= end,
    decreases end,
{
    if end > 0 && white_space(s[end - 1]) {
        assert(s@.take(end as int).drop_last() == s@.take(end - 1));
        1 + count_trailing_white_space(s, end - 1)
    } else {
        0
    }
}

/// `s[from..to]` as a new vector.
pub fn slice_chars(s: &[char], from: usize, to: usize) -> (r: Vec<char>)
    requires
        from <= to <= s@.len(),
    ensures
        r@ == s@.subrange(from as int, to as int),
{
    let mut r: Vec<char> = Vec::new();
    let mut i = from;
    while i < to
        invariant
            from <= i <= to,
            to <= s@.len(),
            r@ == s@.subrange(from as int, i as int),
        decreases to - i,
    {
        r.push(s[i]);
        assert(s@.subrange(from as int, i + 1) == s@.subrange(from as int, i as int).push(
            s@[i as int],
        ));
        i += 1;
    }
    r
}

/// `s` without leading and trailing white space.
pub fn trim_chars(s: &[char]) -> (r: Vec<char>)
    ensures
        r@ == trim(s@),
{
    let start = count_leading_white_space(s, 0);
    assert(s@.skip(0) == s@);
    let front = slice_chars(s, start, s.len());
    assert(front@ == s@.skip(start as int));
    let back = count_trailing_white_space(front.as_slice(), front.len());
    assert(front@.take(front@.len() as int) == front@);
    slice_chars(front.as_slice(), 0, front.len() - back)
}

/// The characters of `s` before the first `c`, or all of `s` when there is
/// no `c`.
pub open spec fn before_first(s: Seq<char>, c: char) -> Seq<char> {
    if exists|i: int| 0 <= i < s.len() && s[i] == c {
        s.take(choose|i: int| 0 <= i < s.len() && s[i] == c && forall|j: int| 0 <= j < i ==> s[j] != c)
    } else {
        s
    }
}

/// The characters of `s` before the first `c`, or all of `s`.
pub fn chars_before(s: &[char], c: char) -> (r: Vec<char>)
    ensures
        r@ == before_first(s@, c),
{
    let mut i: usize = 0;
    while i < s.len()
        invariant
            i <= s@.len(),
            forall|j: int| 0 <= j < i ==> s@[j] != c,
        decreases s@.len() - i,
    {
        if s[i] == c {
            proof {
                let k = choose|k: int|
                    0 <= k < s@.len() && s@[k] == c && forall|j: int| 0 <= j < k ==> s@[j] != c;
                assert(0 <= k < s@.len() && s@[k] == c && forall|j: int| 0 <= j < k ==> s@[j] != c);
                if k < i {
                    assert(s@[k] != c);
                }
                if i < k {
                    assert(s@[i as int] != c);
                }
            }
            return slice_chars(s, 0, i);
        }
        i += 1;
    }
    assert(s@.subrange(0, s@.len() as int) == s@);
    slice_chars(s, 0, s.len())
}

/// Whether `c` is an ASCII decimal digit.
pub open spec fn is_digit(c: char) -> bool {
    '0' <= c <= '9'
}

/// The value of the decimal digits `s`.
pub open spec fn digits_value(s: Seq<char>) -> int
    decreases s.len(),
{
    if s.len() == 0 {
        0
    } else {
        digits_value(s.drop_last()) * 10 + (s.last() as int - '0' as int)
    }
}

/// Whether every character of `s` is a decimal digit.
pub open spec fn all_digits(s: Seq<char>) -> bool {
    forall|i: int| 0 <= i < s.len() ==> is_digit(#[trigger] s[i])
}

/// Whether `s` starts with a minus sign that `str::parse` takes as one.
pub open spec fn minus_sign(s: Seq<char>, signed: bool) -> bool {
    signed && s.len() > 1 && s[0] == '-'
}

/// `s` without the sign that `str::parse` accepts before the digits.
pub open spec fn unsigned_part(s: Seq<char>, signed: bool) -> Seq<char> {
    if s.len() > 1 && (s[0] == '+' || minus_sign(s, signed)) {
        s.drop_first()
    } else {
        s
    }
}

/// What `str::parse` makes of `s` as an integer of unbounded range: an
/// optional sign (`-` only where `signed`) and at least one decimal digit.
pub open spec fn spec_parse_int(s: Seq<char>, signed: bool) -> Option<int> {
    let digits = unsigned_part(s, signed);
    if digits.len() == 0 || !all_digits(digits) {
        None
    } else if minus_sign(s, signed) {
        Some(-digits_value(digits))
    } else {
        Some(digits_value(digits))
    }
}

proof fn lemma_digits_value_nonneg(s: Seq<char>)
    requires
        forall|i: int| 0 <= i < s.len() ==> is_digit(s[i]),
    ensures
        digits_value(s) >= 0,
    decreases s.len(),
{
    if s.len() > 0 {
        lemma_digits_value_nonneg(s.drop_last());
    }
}

/// `s` parsed as an integer whose magnitude is below 2^32 (what `i32` and
/// `u32` can hold), or `None` when it does not parse or is too large.
pub fn parse_small_int(s: &[char], signed: bool) -> (r: Option<i64>)
    ensures
        match spec_parse_int(s@, signed) {
            Some(v) => if -0x1_0000_0000 < v < 0x1_0000_0000 {
                r == Some(v as i64)
            } else {
                r is None
            },
            None => r is None,
        },
{
    let negative = signed && s.len() > 1 && s[0] == '-';
    let start: usize = if s.len() > 1 && (s[0] == '+' || negative) {
        1
    } else {
        0
    };
    let ghost digits = s@.skip(start as int);
    assert(digits == unsigned_part(s@, signed));
    if start == s.len() {
        return None;
    }
    let cap: i64 = 0x1_0000_0000;
    let mut value: i64 = 0;
    let mut i = start;
    while i < s.len()
        invariant
            start <= i <= s@.len(),
            digits == s@.skip(start as int),
            negative == minus_sign(s@, signed),
            digits == unsigned_part(s@, signed),
            cap == 0x1_0000_0000,
            forall|j: int| start <= j < i ==> is_digit(#[trigger] s@[j]),
            value == (if digits_value(s@.subrange(start as int, i as int)) < cap {
                digits_value(s@.subrange(start as int, i as int))
            } else {
                cap as int
            }),
        decreases s@.len() - i,
    {
        let c = s[i];
        if !('0' <= c && c <= '9') {
            assert(!is_digit(digits[i - start]));
            return None;
        }
        let ghost prefix = s@.subrange(start as int, i as int);
        let ghost next = s@.subrange(start as int, i + 1);
        assert(next.drop_last() == prefix);
        proof {
            assert forall|j: int| 0 <= j < prefix.len() implies is_digit(prefix[j]) by {
                assert(prefix[j] == s@[start + j]);
            }
            lemma_digits_value_nonneg(prefix);
        }
        let d = (c as u32 - '0' as u32) as i64;
        if value == cap {
            assert(digits_value(next) >= cap);
        } else {
            let v = value * 10 + d;
            value = if v < cap {
                v
            } else {
                cap
            };
        }
        i += 1;
    }
    assert(s@.subrange(start as int, s@.len() as int) == digits);
    proof {
        assert forall|j: int| 0 <= j < digits.len() implies is_digit(digits[j]) by {
            assert(digits[j] == s@[start + j]);
        }
        lemma_digits_value_nonneg(digits);
    }
    if value == cap {
        None
    } else if negative {
        Some(-value)
    } else {
        Some(value)
    }
}


/// Whatever holds of some natural number holds of a least one.
pub proof fn lemma_least(p: spec_fn(int) -> bool, k: int)
    requires
        0 <= k,
        p(k),
    ensures
        exists|i: int| 0 <= i <= k && #[trigger] p(i) && forall|j: int| 0 <= j < i ==> !#[trigger] p(j),
    decreases k,
{
    if exists|j: int| 0 <= j < k && #[trigger] p(j) {
        let j = choose|j: int| 0 <= j < k && #[trigger] p(j);
        lemma_least(p, j);
    } else {
        assert(forall|j: int| 0 <= j < k ==> !#[trigger] p(j));
    }
}


/// The first index at or after `from` at which `pattern` occurs in `s`.
pub open spec fn match_from<T>(s: Seq<T>, pattern: Seq<T>, from: int) -> Option<int>
    decreases s.len() + 1 - from,
{
    if from < 0 || from > s.len() {
        None
    } else if occurs_at(s, pattern, from) {
        Some(from)
    } else {
        match_from(s, pattern, from + 1)
    }
}

/// The first index at which `pattern` occurs in `s`, if any.
pub open spec fn first_match<T>(s: Seq<T>, pattern: Seq<T>) -> Option<int> {
    match_from(s, pattern, 0)
}

/// The first index at which `pattern` occurs in `s`, if any.
pub fn chars_find_first(s: &[char], pattern: &[char]) -> (r: Option<usize>)
    ensures
        match first_match(s@, pattern@) {
            Some(i) => r is Some && r->0 == i && i + pattern@.len() <= s@.len(),
            None => r is None,
        },
{
    let mut at: usize = 0;
    loop
        invariant
            at <= s.len(),
            first_match(s@, pattern@) == match_from(s@, pattern@, at as int),
        decreases s@.len() - at,
    {
        if chars_occur_at(s, pattern, at) {
            return Some(at);
        }
        if at == s.len() {
            assert(match_from(s@, pattern@, at + 1) is None);
            return None;
        }
        at += 1;
    }
}

/// A string that parses as an unsigned integer parses as one that is not
/// negative.
pub proof fn lemma_unsigned_parse_nonneg(s: Seq<char>)
    ensures
        spec_parse_int(s, false) matches Some(v) ==> v >= 0,
{
    let digits = unsigned_part(s, false);
    if digits.len() > 0 && all_digits(digits) {
        lemma_digits_value_nonneg(digits);
    }
}


/// The decimal representation of the integer `i`, with a leading `-` when
/// it is negative.
pub open spec fn signed_decimal(i: int) -> Seq<char> {
    if i < 0 {
        seq!['-'] + decimal((-i) as nat)
    } else {
        decimal(i as nat)
    }
}

/// Appends the decimal representation of `i` to `s`.
pub fn push_signed_decimal(s: &mut String, i: i64)
    ensures
        final(s)@ == old(s)@ + signed_decimal(i as int),
{
    if i < 0 {
        push_char(s, '-');
        let magnitude: u64 = if i == i64::MIN {
            0x8000_0000_0000_0000
        } else {
            (-i) as u64
        };
        push_decimal(s, magnitude);
        assert(s@ == old(s)@ + (seq!['-'] + decimal((-i) as nat)));
    } else {
        push_decimal(s, i as u64);
    }
}

} // verus!
