//! Text helpers: characters in and out of strings, trimming, searching and
//! number formatting, each stated over sequences of characters.

use vstd::prelude::*;
use vstd::string::*;
use vstd::utf8::*;

verus! {

/// `String::push` appends the character to the end of the string.
pub assume_specification[ String::push ](s: &mut String, c: char)
    ensures
        final(s)@ == old(s)@.push(c),
;

/// Whether two texts hold the same characters.
pub(crate) fn same_text(a: &str, b: &str) -> (same: bool)
    ensures
        same == (a@ == b@),
{
    let x = a.as_bytes();
    let y = b.as_bytes();
    proof {
        encode_utf8_decode_utf8(a@);
        encode_utf8_decode_utf8(b@);
    }
    if x.len() != y.len() {
        return false;
    }
    let mut i: usize = 0;
    while i < x.len()
        invariant
            i <= x@.len() == y@.len(),
            a@ == b@ ==> x@ == y@,
            forall|k: int| 0 <= k < i ==> x@[k] == #[trigger] y@[k],
        decreases x@.len() - i,
    {
        if x[i] != y[i] {
            return false;
        }
        i += 1;
    }
    assert(x@ =~= y@);
    true
}

/// The name of what `str::to_lowercase` makes of a text.
pub uninterp spec fn lowercased(text: Seq<char>) -> Seq<char>;

/// A character with an upper-case ASCII letter turned into its lower-case one.
pub open spec fn ascii_lower(c: char) -> char {
    if 'A' <= c && c <= 'Z' {
        (c as u32 + 32) as char
    } else {
        c
    }
}

/// Whether a text is made of ASCII characters alone.
pub open spec fn ascii_text(text: Seq<char>) -> bool {
    forall|i: int| 0 <= i < text.len() ==> (#[trigger] text[i] as u32) < 128
}

/// `str::to_lowercase`: the Unicode lowercase mapping of the whole text, which
/// depends on the text alone. On ASCII text that is the mapping of its letters; what
/// it is on other text is not said.
#[verifier::external_body]
fn lowercase(text: &str) -> (lower: String)
    ensures
        lower@ == lowercased(text@),
        ascii_text(text@) ==> lower@ == text@.map_values(|c: char| ascii_lower(c)),
{
    text.to_lowercase()
}

/// A text in lower case.
pub open spec fn lower_case(text: Seq<char>) -> Seq<char> {
    if ascii_text(text) {
        text.map_values(|c: char| ascii_lower(c))
    } else {
        lowercased(text)
    }
}

/// `text` in lower case.
pub fn to_lower_case(text: &str) -> (lower: String)
    ensures
        lower@ == lower_case(text@),
{
    lowercase(text)
}

/// The characters of a string, in order.
pub fn chars_of(s: &str) -> (out: Vec<char>)
    ensures
        out@ == s@,
{
    let mut out: Vec<char> = Vec::new();
    for c in it: s.chars()
        invariant
            out@ == s@.take(it.index()),
            it.seq() == s@,
    {
        out.push(c);
    }
    out
}

/// The string made of the characters `from..to`.
pub fn text_between(chars: &[char], from: usize, to: usize) -> (out: String)
    requires
        from <= to <= chars@.len(),
    ensures
        out@ == chars@.subrange(from as int, to as int),
{
    let mut out = String::new();
    let mut i: usize = from;
    while i < to
        invariant
            from <= i <= to <= chars@.len(),
            out@ == chars@.subrange(from as int, i as int),
        decreases to - i,
    {
        out.push(chars[i]);
        i += 1;
    }
    out
}

/// A copy of a string slice as an owned string.
pub fn owned(s: &str) -> (out: String)
    ensures
        out@ == s@,
{
    s.to_string()
}

/// `a` followed by `b`.
pub fn join2(a: &str, b: &str) -> (out: String)
    ensures
        out@ == a@ + b@,
{
    let mut out = owned(a);
    out.append(b);
    out
}

/// `a`, then `b`, then `c`.
pub fn join3(a: &str, b: &str, c: &str) -> (out: String)
    ensures
        out@ == a@ + b@ + c@,
{
    let mut out = owned(a);
    out.append(b);
    out.append(c);
    out
}

// ---------------------------------------------------------------------------
// White space
// ---------------------------------------------------------------------------

/// The characters with the Unicode property `White_Space`.
pub open spec fn white_space(c: char) -> bool {
    let u = c as u32;
    ||| 0x09 <= u <= 0x0d
    ||| u == 0x20
    ||| u == 0x85
    ||| u == 0xa0
    ||| u == 0x1680
    ||| 0x2000 <= u <= 0x200a
    ||| u == 0x2028
    ||| u == 0x2029
    ||| u == 0x202f
    ||| u == 0x205f
    ||| u == 0x3000
}

pub fn is_white_space(c: char) -> (r: bool)
    ensures
        r == white_space(c),
{
    let u: u32 = c as u32;
    (0x09 <= u && u <= 0x0d) || u == 0x20 || u == 0x85 || u == 0xa0 || u == 0x1680 || (0x2000 <= u
        && u <= 0x200a) || u == 0x2028 || u == 0x2029 || u == 0x202f || u == 0x205f || u == 0x3000
}

/// `s` without the longest prefix of white space.
pub open spec fn trimmed_front(s: Seq<char>) -> Seq<char>
    decreases s.len(),
{
    if s.len() > 0 && white_space(s[0]) {
        trimmed_front(s.subrange(1, s.len() as int))
    } else {
        s
    }
}

/// `s` without the longest suffix of white space.
pub open spec fn trimmed_back(s: Seq<char>) -> Seq<char>
    decreases s.len(),
{
    if s.len() > 0 && white_space(s[s.len() - 1]) {
        trimmed_back(s.subrange(0, s.len() - 1))
    } else {
        s
    }
}

/// `s` without white space at either end.
pub open spec fn trimmed(s: Seq<char>) -> Seq<char> {
    trimmed_back(trimmed_front(s))
}

/// Nothing is left of `s` once white space is trimmed off.
pub open spec fn blank(s: Seq<char>) -> bool {
    trimmed(s).len() == 0
}

proof fn lemma_trimmed_front_from(s: Seq<char>, i: int)
    requires
        0 <= i <= s.len(),
        forall|k: int| 0 <= k < i ==> white_space(#[trigger] s[k]),
    ensures
        trimmed_front(s) == trimmed_front(s.subrange(i, s.len() as int)),
    decreases i,
{
    if i == 0 {
        assert(s.subrange(0, s.len() as int) =~= s);
    } else {
        let rest = s.subrange(1, s.len() as int);
        assert(white_space(s[0]));
        lemma_trimmed_front_from(rest, i - 1);
        assert(rest.subrange(i - 1, rest.len() as int) =~= s.subrange(i, s.len() as int));
    }
}

proof fn lemma_trimmed_back_to(s: Seq<char>, j: int)
    requires
        0 <= j <= s.len(),
        forall|k: int| j <= k < s.len() ==> white_space(#[trigger] s[k]),
    ensures
        trimmed_back(s) == trimmed_back(s.subrange(0, j)),
    decreases s.len() - j,
{
    if j == s.len() {
        assert(s.subrange(0, j) =~= s);
    } else {
        let rest = s.subrange(0, s.len() - 1);
        assert(white_space(s[s.len() - 1]));
        lemma_trimmed_back_to(rest, j);
        assert(rest.subrange(0, j) =~= s.subrange(0, j));
    }
}

/// The bounds of what trimming leaves of the characters `from..to`.
fn trim_bounds(chars: &[char], from: usize, to: usize) -> (r: (usize, usize))
    requires
        from <= to <= chars@.len(),
    ensures
        from <= r.0 <= r.1 <= to,
        chars@.subrange(r.0 as int, r.1 as int) == trimmed(
            chars@.subrange(from as int, to as int),
        ),
{
    let ghost s = chars@.subrange(from as int, to as int);
    let mut i: usize = from;
    while i < to && is_white_space(chars[i])
        invariant
            from <= i <= to <= chars@.len(),
            s == chars@.subrange(from as int, to as int),
            forall|k: int| 0 <= k < i - from ==> white_space(#[trigger] s[k]),
        decreases to - i,
    {
        assert(s[i - from] == chars@[i as int]);
        i += 1;
    }
    let ghost front = s.subrange(i - from, s.len() as int);
    proof {
        lemma_trimmed_front_from(s, i - from);
        if i < to {
            assert(front[0] == chars@[i as int]);
        }
        assert(trimmed_front(s) == front);
    }
    let mut j: usize = to;
    while i < j && is_white_space(chars[j - 1])
        invariant
            from <= i <= j <= to <= chars@.len(),
            s == chars@.subrange(from as int, to as int),
            front == s.subrange(i - from, s.len() as int),
            forall|k: int| j - i <= k < front.len() ==> white_space(#[trigger] front[k]),
        decreases j - i,
    {
        assert(front[j - 1 - i] == chars@[j - 1]);
        j -= 1;
    }
    proof {
        lemma_trimmed_back_to(front, j - i);
        let rest = front.subrange(0, j - i);
        if i < j {
            assert(rest[rest.len() - 1] == chars@[j - 1]);
        }
        assert(rest =~= chars@.subrange(i as int, j as int));
    }
    (i, j)
}

/// The characters `from..to` with white space trimmed off both ends.
pub fn trim_between(chars: &[char], from: usize, to: usize) -> (out: String)
    requires
        from <= to <= chars@.len(),
    ensures
        out@ == trimmed(chars@.subrange(from as int, to as int)),
{
    let (i, j) = trim_bounds(chars, from, to);
    text_between(chars, i, j)
}

/// `s` with white space trimmed off both ends.
pub fn trim(s: &str) -> (out: String)
    ensures
        out@ == trimmed(s@),
{
    let chars = chars_of(s);
    assert(s@.subrange(0, s@.len() as int) =~= s@);
    trim_between(chars.as_slice(), 0, chars.len())
}

/// Whether `s` holds white space alone.
pub fn is_blank(s: &str) -> (r: bool)
    ensures
        r == blank(s@),
{
    let chars = chars_of(s);
    assert(s@.subrange(0, s@.len() as int) =~= s@);
    let (i, j) = trim_bounds(chars.as_slice(), 0, chars.len());
    i == j
}

/// A text is blank exactly when every character of it is white space.
pub proof fn blank_means_all_white_space(s: Seq<char>)
    ensures
        blank(s) <==> forall|i: int| 0 <= i < s.len() ==> white_space(#[trigger] s[i]),
    decreases s.len(),
{
    if s.len() > 0 && white_space(s[0]) {
        let rest = s.subrange(1, s.len() as int);
        blank_means_all_white_space(rest);
        assert(trimmed(s) == trimmed(rest));
        assert forall|i: int|
            0 <= i < s.len() && (forall|k: int|
                0 <= k < rest.len() ==> white_space(#[trigger] rest[k])) implies white_space(
            #[trigger] s[i],
        ) by {
            if i > 0 {
                assert(rest[i - 1] == s[i]);
            }
        }
        assert forall|k: int|
            0 <= k < rest.len() && (forall|i: int|
                0 <= i < s.len() ==> white_space(#[trigger] s[i])) implies white_space(
            #[trigger] rest[k],
        ) by {
            assert(rest[k] == s[k + 1]);
        }
    } else if s.len() > 0 {
        lemma_trimmed_back_keeps_front(s);
    }
}

proof fn lemma_trimmed_back_keeps_front(s: Seq<char>)
    requires
        s.len() > 0,
        !white_space(s[0]),
    ensures
        trimmed_back(s).len() > 0,
        trimmed_back(s)[0] == s[0],
    decreases s.len(),
{
    if white_space(s[s.len() - 1]) {
        lemma_trimmed_back_keeps_front(s.subrange(0, s.len() - 1));
    }
}

/// Trimming leaves alone a text that has no white space in it.
pub proof fn trimming_keeps_solid_text(s: Seq<char>)
    requires
        forall|i: int| 0 <= i < s.len() ==> !white_space(#[trigger] s[i]),
    ensures
        trimmed(s) == s,
{
    if s.len() > 0 {
        assert(!white_space(s[0]));
        assert(!white_space(s[s.len() - 1]));
    }
}

proof fn lemma_trimmed_front_ends(s: Seq<char>)
    ensures
        trimmed_front(s).len() > 0 ==> !white_space(trimmed_front(s)[0]),
    decreases s.len(),
{
    if s.len() > 0 && white_space(s[0]) {
        lemma_trimmed_front_ends(s.subrange(1, s.len() as int));
    }
}

proof fn lemma_trimmed_back_ends(s: Seq<char>)
    ensures
        trimmed_back(s).is_prefix_of(s),
        trimmed_back(s).len() > 0 ==> !white_space(trimmed_back(s)[trimmed_back(s).len() - 1]),
        forall|i: int|
            0 <= i < s.len() && !white_space(#[trigger] s[i]) ==> i < trimmed_back(s).len(),
    decreases s.len(),
{
    if s.len() > 0 && white_space(s[s.len() - 1]) {
        let rest = s.subrange(0, s.len() - 1);
        lemma_trimmed_back_ends(rest);
        assert forall|i: int| 0 <= i < s.len() && !white_space(#[trigger] s[i]) implies i
            < trimmed_back(s).len() by {
            assert(rest[i] == s[i]);
        }
    }
}

/// Trimming a text twice is trimming it once: nothing is left to be trimmed.
pub proof fn trimming_twice_is_trimming_once(s: Seq<char>)
    ensures
        trimmed(trimmed(s)) == trimmed(s),
{
    let front = trimmed_front(s);
    lemma_trimmed_front_ends(s);
    lemma_trimmed_back_ends(front);
}

/// What a text begins with is not trimmed off where its first and its last character
/// are not white space.
pub proof fn trimming_keeps_solid_beginnings(s: Seq<char>, beginning: Seq<char>)
    requires
        beginning.len() > 0,
        beginning.is_prefix_of(s),
        !white_space(beginning[0]),
        !white_space(beginning[beginning.len() - 1]),
    ensures
        beginning.is_prefix_of(trimmed(s)),
{
    let n = beginning.len() - 1;
    assert(s.subrange(0, beginning.len() as int)[0] == s[0]);
    assert(s.subrange(0, beginning.len() as int)[n] == s[n]);
    lemma_trimmed_back_ends(s);
    assert(trimmed(s) == trimmed_back(s));
    assert(n < trimmed_back(s).len());
    assert forall|i: int| 0 <= i < beginning.len() implies trimmed(s)[i] == #[trigger] beginning[i] by {
        assert(s.subrange(0, beginning.len() as int)[i] == s[i]);
        assert(s.subrange(0, trimmed_back(s).len() as int)[i] == s[i]);
    }
    assert(beginning =~= trimmed(s).subrange(0, beginning.len() as int));
}

// ---------------------------------------------------------------------------
// Searching
// ---------------------------------------------------------------------------

/// The first place of `c` in `s`, or the length of `s` where it has none.
pub open spec fn first_place(s: Seq<char>, c: char) -> int
    decreases s.len(),
{
    if s.len() == 0 || s[0] == c {
        0
    } else {
        1 + first_place(s.subrange(1, s.len() as int), c)
    }
}

/// What `first_place` is: nothing before it is `c`, and it is `c` unless it is
/// the end.
pub proof fn first_place_is_first(s: Seq<char>, c: char)
    ensures
        0 <= first_place(s, c) <= s.len(),
        forall|i: int| 0 <= i < first_place(s, c) ==> #[trigger] s[i] != c,
        first_place(s, c) < s.len() ==> s[first_place(s, c)] == c,
    decreases s.len(),
{
    if s.len() > 0 && s[0] != c {
        let rest = s.subrange(1, s.len() as int);
        first_place_is_first(rest, c);
        assert forall|i: int| 0 <= i < first_place(s, c) implies #[trigger] s[i] != c by {
            if i > 0 {
                assert(rest[i - 1] == s[i]);
            }
        }
    }
}

proof fn lemma_first_place_unique(s: Seq<char>, c: char, p: int)
    requires
        0 <= p <= s.len(),
        forall|i: int| 0 <= i < p ==> #[trigger] s[i] != c,
        p < s.len() ==> s[p] == c,
    ensures
        first_place(s, c) == p,
{
    first_place_is_first(s, c);
    let q = first_place(s, c);
    if q < p {
        assert(s[q] != c);
    } else if p < q {
        assert(s[p] != c);
    }
}

/// Where in the characters `from..to` the character `c` comes first, or `to`.
pub fn find_char(chars: &[char], from: usize, to: usize, c: char) -> (at: usize)
    requires
        from <= to <= chars@.len(),
    ensures
        from <= at <= to,
        at - from == first_place(chars@.subrange(from as int, to as int), c),
{
    let ghost s = chars@.subrange(from as int, to as int);
    let mut i: usize = from;
    while i < to && chars[i] != c
        invariant
            from <= i <= to <= chars@.len(),
            s == chars@.subrange(from as int, to as int),
            forall|k: int| 0 <= k < i - from ==> #[trigger] s[k] != c,
        decreases to - i,
    {
        assert(s[i - from] == chars@[i as int]);
        i += 1;
    }
    proof {
        if i < to {
            assert(s[i - from] == chars@[i as int]);
        }
        lemma_first_place_unique(s, c, i - from);
    }
    i
}

/// Whether `s` begins with `prefix`.
pub fn starts_with(s: &str, prefix: &str) -> (r: bool)
    ensures
        r == prefix@.is_prefix_of(s@),
{
    let a = chars_of(s);
    let b = chars_of(prefix);
    if b.len() > a.len() {
        return false;
    }
    let mut i: usize = 0;
    while i < b.len()
        invariant
            a@ == s@,
            b@ == prefix@,
            i <= b@.len() <= a@.len(),
            forall|k: int| 0 <= k < i ==> a@[k] == #[trigger] b@[k],
        decreases b@.len() - i,
    {
        if a[i] != b[i] {
            assert(prefix@ != s@.subrange(0, prefix@.len() as int)) by {
                assert(s@.subrange(0, prefix@.len() as int)[i as int] == a@[i as int]);
            }
            return false;
        }
        i += 1;
    }
    assert(prefix@ =~= s@.subrange(0, prefix@.len() as int));
    true
}

/// `s` without the longest suffix made of `c` alone.
pub open spec fn without_trailing(s: Seq<char>, c: char) -> Seq<char>
    decreases s.len(),
{
    if s.len() > 0 && s[s.len() - 1] == c {
        without_trailing(s.subrange(0, s.len() - 1), c)
    } else {
        s
    }
}

/// `s` without the longest prefix made of `c` alone.
pub open spec fn without_leading(s: Seq<char>, c: char) -> Seq<char>
    decreases s.len(),
{
    if s.len() > 0 && s[0] == c {
        without_leading(s.subrange(1, s.len() as int), c)
    } else {
        s
    }
}

/// `s` without the `c`s at either end.
pub fn trim_matches(s: &str, c: char) -> (out: String)
    ensures
        out@ == without_trailing(without_leading(s@, c), c),
{
    let chars = chars_of(s);
    let mut i: usize = 0;
    assert(s@.subrange(0, s@.len() as int) =~= s@);
    while i < chars.len() && chars[i] == c
        invariant
            chars@ == s@,
            i <= chars@.len(),
            without_leading(s@, c) == without_leading(s@.subrange(i as int, s@.len() as int), c),
        decreases chars@.len() - i,
    {
        let ghost now = s@.subrange(i as int, s@.len() as int);
        assert(now.subrange(1, now.len() as int) =~= s@.subrange(i + 1, s@.len() as int));
        i += 1;
    }
    let rest = text_between(chars.as_slice(), i, chars.len());
    trim_end_matches(rest.as_str(), c)
}

/// `s` without the `c`s at its end.
pub fn trim_end_matches(s: &str, c: char) -> (out: String)
    ensures
        out@ == without_trailing(s@, c),
{
    let chars = chars_of(s);
    let mut j: usize = chars.len();
    assert(s@.subrange(0, s@.len() as int) =~= s@);
    while j > 0 && chars[j - 1] == c
        invariant
            chars@ == s@,
            j <= chars@.len(),
            without_trailing(s@, c) == without_trailing(s@.subrange(0, j as int), c),
        decreases j,
    {
        let ghost now = s@.subrange(0, j as int);
        assert(now.subrange(0, now.len() - 1) =~= s@.subrange(0, j - 1));
        j -= 1;
    }
    text_between(chars.as_slice(), 0, j)
}

// ---------------------------------------------------------------------------
// Numbers as text
// ---------------------------------------------------------------------------

/// The digit for `d`, in lower case from ten on.
pub open spec fn digit(d: int) -> char {
    "0123456789abcdef"@[d]
}

fn digit_char(d: u128) -> (c: char)
    requires
        d < 16,
    ensures
        c == digit(d as int),
{
    proof {
        reveal_strlit("0123456789abcdef");
    }
    match d {
        0 => '0',
        1 => '1',
        2 => '2',
        3 => '3',
        4 => '4',
        5 => '5',
        6 => '6',
        7 => '7',
        8 => '8',
        9 => '9',
        10 => 'a',
        11 => 'b',
        12 => 'c',
        13 => 'd',
        14 => 'e',
        _ => 'f',
    }
}

/// The decimal digits of `n`, without leading zeros.
pub open spec fn decimal_digits(n: nat) -> Seq<char>
    decreases n,
{
    if n < 10 {
        seq![digit(n as int)]
    } else {
        decimal_digits(n / 10).push(digit((n % 10) as int))
    }
}

/// `n` in decimal.
pub fn decimal(n: u128) -> (out: String)
    ensures
        out@ == decimal_digits(n as nat),
    decreases n,
{
    let mut out: String = if n < 10 {
        String::new()
    } else {
        decimal(n / 10)
    };
    out.push(digit_char(n % 10));
    assert(out@ =~= decimal_digits(n as nat));
    out
}

/// The decimal digits of `n`, padded with a zero to two places.
pub open spec fn two_digits(n: nat) -> Seq<char> {
    if n < 10 {
        seq!['0', digit(n as int)]
    } else {
        decimal_digits(n)
    }
}

/// `n` in decimal, with a leading zero where it has one digit.
pub fn decimal2(n: u128) -> (out: String)
    ensures
        out@ == two_digits(n as nat),
{
    if n < 10 {
        let mut out = String::new();
        out.push('0');
        out.push(digit_char(n));
        assert(out@ =~= two_digits(n as nat));
        out
    } else {
        decimal(n)
    }
}

/// The number that a text of decimal digits is read as.
pub open spec fn number_in(text: Seq<char>) -> int
    decreases text.len(),
{
    if text.len() == 0 {
        0
    } else {
        10 * number_in(text.drop_last()) + (text.last() as int - '0' as int)
    }
}

/// Whether a text is made of decimal digits alone.
pub open spec fn all_digits(text: Seq<char>) -> bool {
    forall|i: int| 0 <= i < text.len() ==> '0' <= #[trigger] text[i] && text[i] <= '9'
}

proof fn lemma_digit_value(d: int)
    requires
        0 <= d < 10,
    ensures
        digit(d) as int == '0' as int + d,
        '0' <= digit(d) && digit(d) <= '9',
{
    reveal_strlit("0123456789abcdef");
    assert(d == 0 || d == 1 || d == 2 || d == 3 || d == 4 || d == 5 || d == 6 || d == 7 || d == 8
        || d == 9);
}

/// A number that is written in decimal is read back as the same number, and has no zero
/// in front unless it is zero.
pub proof fn decimals_read_back(n: nat)
    ensures
        all_digits(decimal_digits(n)),
        decimal_digits(n).len() > 0,
        number_in(decimal_digits(n)) == n,
        n > 0 ==> decimal_digits(n)[0] != '0',
        n < 10 ==> decimal_digits(n).len() == 1,
        10 <= n < 100 ==> decimal_digits(n).len() == 2,
    decreases n,
{
    lemma_digit_value((n % 10) as int);
    let all = decimal_digits(n);
    if n < 10 {
        assert(all.drop_last() =~= Seq::empty());
        assert(number_in(Seq::empty()) == 0);
    } else {
        decimals_read_back(n / 10);
        let front = decimal_digits(n / 10);
        assert(all.drop_last() =~= front);
        assert forall|i: int| 0 <= i < all.len() implies '0' <= #[trigger] all[i] && all[i]
            <= '9' by {
            if i < front.len() {
                assert(all[i] == front[i]);
            }
        }
        assert(all[0] == front[0]);
    }
}

/// So is one that is written with two digits at least.
pub proof fn padded_decimals_read_back(n: nat)
    ensures
        all_digits(two_digits(n)),
        two_digits(n).len() >= 2,
        n < 100 ==> two_digits(n).len() == 2,
        number_in(two_digits(n)) == n,
{
    if n < 10 {
        lemma_digit_value(n as int);
        let all = two_digits(n);
        assert(all.drop_last() =~= seq!['0']);
        assert(all.drop_last().drop_last() =~= Seq::empty());
        assert(number_in(Seq::empty()) == 0);
        assert(number_in(seq!['0']) == 0);
    } else {
        decimals_read_back(n);
        if n >= 100 {
            decimals_read_back(n / 10);
        }
    }
}

/// Two lower-case hexadecimal digits for each byte.
pub open spec fn hex_digits(bytes: Seq<u8>) -> Seq<char> {
    Seq::new(
        2 * bytes.len(),
        |i: int|
            digit(
                if i % 2 == 0 {
                    bytes[i / 2] as int / 16
                } else {
                    bytes[i / 2] as int % 16
                },
            ),
    )
}

/// `bytes` in lower-case hexadecimal.
pub fn hex(bytes: &[u8]) -> (out: String)
    ensures
        out@ == hex_digits(bytes@),
{
    let mut out = String::new();
    let mut i: usize = 0;
    while i < bytes.len()
        invariant
            i <= bytes@.len(),
            out@ == hex_digits(bytes@).take(2 * i),
        decreases bytes@.len() - i,
    {
        let b: u8 = bytes[i];
        out.push(digit_char((b / 16) as u128));
        out.push(digit_char((b % 16) as u128));
        i += 1;
        assert(out@ =~= hex_digits(bytes@).take(2 * i));
    }
    out
}

proof fn lemma_trimmed_front_place(s: Seq<char>)
    ensures
        exists|a: int|
            0 <= a <= s.len() && trimmed_front(s) == #[trigger] s.subrange(a, s.len() as int)
                && forall|i: int| 0 <= i < a ==> white_space(#[trigger] s[i]),
    decreases s.len(),
{
    if s.len() > 0 && white_space(s[0]) {
        let rest = s.subrange(1, s.len() as int);
        lemma_trimmed_front_place(rest);
        let a = choose|a: int|
            0 <= a <= rest.len() && trimmed_front(rest) == #[trigger] rest.subrange(
                a,
                rest.len() as int,
            ) && forall|i: int| 0 <= i < a ==> white_space(#[trigger] rest[i]);
        assert(s.subrange(a + 1, s.len() as int) =~= rest.subrange(a, rest.len() as int));
        assert forall|i: int| 0 <= i < a + 1 implies white_space(#[trigger] s[i]) by {
            if i > 0 {
                assert(rest[i - 1] == s[i]);
            }
        }
    } else {
        assert(s.subrange(0, s.len() as int) =~= s);
    }
}

/// Whether `inner` is what is left of `s` between white space: a stretch of it, with nothing
/// but white space before and behind it, that neither begins nor ends with white space.
pub open spec fn core_of(s: Seq<char>, inner: Seq<char>) -> bool {
    exists|a: int, b: int|
        {
            &&& 0 <= a <= b <= s.len()
            &&& inner == #[trigger] s.subrange(a, b)
            &&& forall|i: int| 0 <= i < a ==> white_space(#[trigger] s[i])
            &&& forall|i: int| b <= i < s.len() ==> white_space(#[trigger] s[i])
            &&& inner.len() > 0 ==> !white_space(inner[0]) && !white_space(inner[inner.len() - 1])
        }
}

/// Trimming takes white space off both ends of a text, all of it, and nothing else.
pub proof fn trimming_takes_off_white_space_alone(s: Seq<char>)
    ensures
        core_of(s, trimmed(s)),
{
    let front = trimmed_front(s);
    let back = trimmed_back(front);
    lemma_trimmed_front_place(s);
    lemma_trimmed_front_ends(s);
    lemma_trimmed_back_ends(front);
    let a = choose|a: int|
        0 <= a <= s.len() && front == #[trigger] s.subrange(a, s.len() as int) && forall|i: int|
            0 <= i < a ==> white_space(#[trigger] s[i]);
    let b = a + back.len();
    assert(s.subrange(a, b) =~= back);
    assert forall|i: int| b <= i < s.len() implies white_space(#[trigger] s[i]) by {
        assert(front[i - a] == s[i]);
    }
}

/// Bytes are told apart by their hexadecimal digits, of which each has two.
pub proof fn hexadecimals_tell_bytes_apart(a: Seq<u8>, b: Seq<u8>)
    requires
        hex_digits(a) == hex_digits(b),
    ensures
        a == b,
{
    reveal_strlit("0123456789abcdef");
    assert(hex_digits(a).len() == 2 * a.len());
    assert(hex_digits(b).len() == 2 * b.len());
    assert forall|i: int| 0 <= i < a.len() implies a[i] == b[i] by {
        let (x, y) = (a[i] as int, b[i] as int);
        assert(hex_digits(a)[2 * i] == digit(x / 16));
        assert(hex_digits(b)[2 * i] == digit(y / 16));
        assert(hex_digits(a)[2 * i + 1] == digit(x % 16));
        assert(hex_digits(b)[2 * i + 1] == digit(y % 16));
        lemma_digits_differ(x / 16, y / 16);
        lemma_digits_differ(x % 16, y % 16);
    }
    assert(a =~= b);
}

proof fn lemma_digits_differ(x: int, y: int)
    requires
        0 <= x < 16,
        0 <= y < 16,
        digit(x) == digit(y),
    ensures
        x == y,
{
    reveal_strlit("0123456789abcdef");
    let d = |k: int| k == 0 || k == 1 || k == 2 || k == 3 || k == 4 || k == 5 || k == 6 || k == 7
        || k == 8 || k == 9 || k == 10 || k == 11 || k == 12 || k == 13 || k == 14 || k == 15;
    assert(d(x) && d(y));
}

/// White space is what Unicode counts as such.
pub proof fn white_space_is_what_unicode_counts(c: char)
    ensures
        white_space(c) <==> {
            ||| '\u{9}' <= c && c <= '\u{d}'
            ||| c == ' '
            ||| c == '\u{85}'
            ||| c == '\u{a0}'
            ||| c == '\u{1680}'
            ||| '\u{2000}' <= c && c <= '\u{200a}'
            ||| c == '\u{2028}'
            ||| c == '\u{2029}'
            ||| c == '\u{202f}'
            ||| c == '\u{205f}'
            ||| c == '\u{3000}'
        },
{
}

} // verus!
