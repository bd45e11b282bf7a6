//! Characters, words and numbers in text.

use vstd::prelude::*;

verus! {

/// Characters with the Unicode `White_Space` property.
pub open spec fn is_space(c: char) -> bool {
    ||| '\u{9}' <= c <= '\u{d}'
    ||| c == ' '
    ||| c == '\u{85}'
    ||| c == '\u{a0}'
    ||| c == '\u{1680}'
    ||| '\u{2000}' <= c <= '\u{200a}'
    ||| c == '\u{2028}'
    ||| c == '\u{2029}'
    ||| c == '\u{202f}'
    ||| c == '\u{205f}'
    ||| c == '\u{3000}'
}

/// A text without its leading white space.
pub open spec fn trim_start(s: Seq<char>) -> Seq<char>
    decreases s.len(),
{
    if s.len() > 0 && is_space(s[0]) {
        trim_start(s.drop_first())
    } else {
        s
    }
}

/// A text without its trailing white space.
pub open spec fn trim_end(s: Seq<char>) -> Seq<char>
    decreases s.len(),
{
    if s.len() > 0 && is_space(s.last()) {
        trim_end(s.drop_last())
    } else {
        s
    }
}

/// A text without the white space at either end.
pub open spec fn trim(s: Seq<char>) -> Seq<char> {
    trim_end(trim_start(s))
}

/// True of a text that holds nothing but white space.
pub open spec fn is_blank(s: Seq<char>) -> bool {
    forall|i: int| 0 <= i < s.len() ==> is_space(#[trigger] s[i])
}

/// The lower-case form of an ASCII letter; every other character unchanged.
pub open spec fn ascii_lower(c: char) -> char {
    if 'A' <= c <= 'Z' {
        ((c as u8) + 32u8) as u8 as char
    } else {
        c
    }
}

/// Equality of two texts up to the case of ASCII letters.
pub open spec fn equal_ignoring_case(a: Seq<char>, b: Seq<char>) -> bool {
    &&& a.len() == b.len()
    &&& forall|i: int| 0 <= i < a.len() ==> ascii_lower(#[trigger] a[i]) == ascii_lower(b[i])
}

/// True of a separator: the given character, or white space where none is given.
pub open spec fn separates(sep: Option<char>, c: char) -> bool {
    match sep {
        Some(d) => c == d,
        None => is_space(c),
    }
}

/// How many characters stand before the first separator.
pub open spec fn run_until(s: Seq<char>, stop: Option<char>) -> nat
    decreases s.len(),
{
    if s.len() == 0 || separates(stop, s[0]) {
        0
    } else {
        1 + run_until(s.drop_first(), stop)
    }
}

/// The maximal runs of characters other than white space, in order.
pub open spec fn words(s: Seq<char>) -> Seq<Seq<char>>
    decreases s.len(),
    via words_decreases
{
    let t = trim_start(s);
    if t.len() == 0 {
        Seq::empty()
    } else {
        let n = run_until(t, None) as int;
        seq![t.take(n)] + words(t.skip(n))
    }
}

#[via_fn]
proof fn words_decreases(s: Seq<char>) {
    let t = trim_start(s);
    lemma_trim_start_len(s);
    lemma_run_until(t, None);
}

/// The pieces of a text between the occurrences of `sep`.
pub open spec fn pieces(s: Seq<char>, sep: char) -> Seq<Seq<char>>
    decreases s.len(),
{
    let n = run_until(s, Some(sep));
    if n >= s.len() {
        seq![s]
    } else {
        seq![s.take(n as int)] + pieces(s.skip(n as int + 1), sep)
    }
}

/// True of a decimal digit.
pub open spec fn is_digit(c: char) -> bool {
    '0' <= c <= '9'
}

/// True of a non-empty text of decimal digits.
pub open spec fn is_number(s: Seq<char>) -> bool {
    &&& s.len() > 0
    &&& forall|i: int| 0 <= i < s.len() ==> is_digit(#[trigger] s[i])
}

/// The number that a text of decimal digits writes.
pub open spec fn number_value(s: Seq<char>) -> nat
    decreases s.len(),
{
    if s.len() == 0 {
        0
    } else {
        number_value(s.drop_last()) * 10 + (s.last() as u32 - '0' as u32) as nat
    }
}

/// The integer that a text writes: decimal digits behind an optional sign.
pub open spec fn integer_value(s: Seq<char>) -> Option<int> {
    if s.len() > 0 && (s[0] == '+' || s[0] == '-') {
        let digits = s.drop_first();
        if !is_number(digits) {
            None
        } else if s[0] == '-' {
            Some(-(number_value(digits) as int))
        } else {
            Some(number_value(digits) as int)
        }
    } else if is_number(s) {
        Some(number_value(s) as int)
    } else {
        None
    }
}

/// The integer that a text writes, where it lies between two bounds.
pub open spec fn integer_between(s: Seq<char>, low: int, high: int) -> Option<int> {
    match integer_value(s) {
        Some(v) if low <= v <= high => Some(v),
        _ => None,
    }
}

/// The decimal digits of a number, without leading zeros.
pub open spec fn decimal_digits(n: nat) -> Seq<char>
    decreases n,
{
    if n < 10 {
        seq![digit_char(n)]
    } else {
        decimal_digits(n / 10).push(digit_char(n % 10))
    }
}

/// The character of a one-digit number.
pub open spec fn digit_char(d: nat) -> char {
    ((d + 48) as u8) as char
}

/// A text with every `from` written as `to`.
pub open spec fn with_replaced(s: Seq<char>, from: char, to: char) -> Seq<char> {
    s.map_values(|c: char| if c == from { to } else { c })
}

proof fn lemma_trim_start_len(s: Seq<char>)
    ensures
        trim_start(s).len() <= s.len(),
        trim_start(s).len() > 0 ==> !is_space(trim_start(s)[0]),
    decreases s.len(),
{
    if s.len() > 0 && is_space(s[0]) {
        lemma_trim_start_len(s.drop_first());
    }
}

proof fn lemma_run_until(s: Seq<char>, stop: Option<char>)
    ensures
        run_until(s, stop) <= s.len(),
        s.len() > 0 && !separates(stop, s[0]) ==> run_until(s, stop) > 0,
    decreases s.len(),
{
    if s.len() > 0 && !separates(stop, s[0]) {
        lemma_run_until(s.drop_first(), stop);
    }
}

/// The run is the one that a scan from the left finds.
proof fn lemma_run_until_is(s: Seq<char>, stop: Option<char>, n: int)
    requires
        0 <= n <= s.len(),
        forall|i: int| 0 <= i < n ==> !separates(stop, #[trigger] s[i]),
        n < s.len() ==> separates(stop, s[n]),
    ensures
        run_until(s, stop) == n,
    decreases s.len(),
{
    if n > 0 {
        assert(!separates(stop, s[0]));
        let t = s.drop_first();
        assert forall|i: int| 0 <= i < n - 1 implies !separates(stop, #[trigger] t[i]) by {
            assert(t[i] == s[i + 1]);
        }
        if n < s.len() {
            assert(t[n - 1] == s[n]);
        }
        lemma_run_until_is(t, stop, n - 1);
    }
}

/// A blank text is one of which trimming leaves nothing.
pub proof fn lemma_blank_trims_to_nothing(s: Seq<char>)
    ensures
        is_blank(s) == (trim(s).len() == 0),
    decreases s.len(),
{
    if s.len() == 0 {
    } else if is_space(s[0]) {
        let t = s.drop_first();
        lemma_blank_trims_to_nothing(t);
        if is_blank(s) {
            assert forall|i: int| 0 <= i < t.len() implies is_space(#[trigger] t[i]) by {
                assert(t[i] == s[i + 1]);
            }
        }
        if is_blank(t) {
            assert forall|i: int| 0 <= i < s.len() implies is_space(#[trigger] s[i]) by {
                if i > 0 {
                    assert(t[i - 1] == s[i]);
                }
            }
        }
    } else {
        lemma_trim_end_keeps_first(s);
    }
}

proof fn lemma_trim_end_keeps_first(s: Seq<char>)
    requires
        s.len() > 0,
        !is_space(s[0]),
    ensures
        trim_end(s).len() > 0,
    decreases s.len(),
{
    if is_space(s.last()) {
        assert(s.len() > 1);
        assert(s.drop_last()[0] == s[0]);
        lemma_trim_end_keeps_first(s.drop_last());
    }
}

/// Tests for the `White_Space` property.
pub fn space(c: char) -> (r: bool)
    ensures
        r == is_space(c),
{
    ('\u{9}' <= c && c <= '\u{d}') || c == ' ' || c == '\u{85}' || c == '\u{a0}' || c == '\u{1680}'
        || ('\u{2000}' <= c && c <= '\u{200a}') || c == '\u{2028}' || c == '\u{2029}' || c
        == '\u{202f}' || c == '\u{205f}' || c == '\u{3000}'
}

/// The characters of a text, in order.
pub fn chars_of(s: &str) -> (r: Vec<char>)
    ensures
        r@ == s@,
{
    let mut out: Vec<char> = Vec::new();
    for c in it: s.chars()
        invariant
            out@ == it.seq().take(it.index()),
    {
        out.push(c);
    }
    out
}

/// Cuts the white space off both ends.
pub fn trimmed(s: &str) -> (r: &str)
    ensures
        r@ == trim(s@),
{
    let chars = chars_of(s);
    let mut i: usize = 0;
    assert(s@.skip(0) =~= s@);
    while i < chars.len() && space(chars[i])
        invariant
            chars@ == s@,
            i <= chars.len(),
            trim_start(s@) == trim_start(s@.skip(i as int)),
        decreases chars.len() - i,
    {
        assert(s@.skip(i as int).drop_first() =~= s@.skip(i + 1));
        i += 1;
    }
    let mut j: usize = chars.len();
    assert(trim_start(s@) == s@.skip(i as int));
    assert(s@.skip(i as int) =~= s@.subrange(i as int, j as int));
    while j > i && space(chars[j - 1])
        invariant
            chars@ == s@,
            i <= j <= chars.len(),
            trim(s@) == trim_end(s@.subrange(i as int, j as int)),
        decreases j,
    {
        assert(s@.subrange(i as int, j as int).drop_last() =~= s@.subrange(i as int, j - 1));
        j -= 1;
    }
    s.substring_char(i, j)
}

/// Tests whether a text holds nothing but white space.
pub fn blank(s: &str) -> (r: bool)
    ensures
        r == is_blank(s@),
{
    proof {
        lemma_blank_trims_to_nothing(s@);
    }
    trimmed(s).is_empty()
}

/// Compares two texts character by character.
pub fn same_text(a: &str, b: &str) -> (r: bool)
    ensures
        r == (a@ == b@),
{
    let x = a.to_owned();
    let y = b.to_owned();
    x == y
}

fn lower(c: char) -> (r: char)
    ensures
        r == ascii_lower(c),
{
    if 'A' <= c && c <= 'Z' {
        ((c as u8) + 32) as char
    } else {
        c
    }
}

/// Compares two texts up to the case of ASCII letters.
pub fn same_ignoring_case(a: &str, b: &str) -> (r: bool)
    ensures
        r == equal_ignoring_case(a@, b@),
{
    let x = chars_of(a);
    let y = chars_of(b);
    if x.len() != y.len() {
        return false;
    }
    let mut i: usize = 0;
    while i < x.len()
        invariant
            x@ == a@,
            y@ == b@,
            x.len() == y.len(),
            i <= x.len(),
            forall|k: int| 0 <= k < i ==> ascii_lower(#[trigger] a@[k]) == ascii_lower(b@[k]),
        decreases x.len() - i,
    {
        if lower(x[i]) != lower(y[i]) {
            assert(ascii_lower(a@[i as int]) != ascii_lower(b@[i as int]));
            return false;
        }
        i += 1;
    }
    true
}

/// Tests whether a character occurs in a text.
pub fn has_char(s: &str, wanted: char) -> (r: bool)
    ensures
        r == s@.contains(wanted),
{
    let chars = chars_of(s);
    let mut i: usize = 0;
    while i < chars.len()
        invariant
            chars@ == s@,
            i <= chars.len(),
            forall|k: int| 0 <= k < i ==> s@[k] != wanted,
        decreases chars.len() - i,
    {
        if chars[i] == wanted {
            assert(s@[i as int] == wanted);
            return true;
        }
        i += 1;
    }
    false
}

/// A vector of text slices as a sequence of texts.
pub open spec fn slices(v: Seq<&str>) -> Seq<Seq<char>> {
    Seq::new(v.len(), |i: int| v[i]@)
}

/// A vector of strings as a sequence of texts.
pub open spec fn strings(v: Seq<String>) -> Seq<Seq<char>> {
    Seq::new(v.len(), |i: int| v[i]@)
}

/// Splits a text at its white space.
pub fn split_words(s: &str) -> (r: Vec<&str>)
    ensures
        slices(r@) == words(s@),
{
    let chars = chars_of(s);
    let mut out: Vec<&str> = Vec::new();
    let mut i: usize = 0;
    assert(s@.skip(0) =~= s@);
    assert(slices(out@) + words(s@) =~= words(s@));
    loop
        invariant
            chars@ == s@,
            i <= chars.len(),
            slices(out@) + words(s@.skip(i as int)) == words(s@),
        decreases chars.len() - i,
    {
        let ghost rest = s@.skip(i as int);
        let mut j: usize = i;
        while j < chars.len() && space(chars[j])
            invariant
                chars@ == s@,
                i <= j <= chars.len(),
                trim_start(rest) == trim_start(s@.skip(j as int)),
            decreases chars.len() - j,
        {
            assert(s@.skip(j as int).drop_first() =~= s@.skip(j + 1));
            j += 1;
        }
        let ghost t = trim_start(rest);
        assert(t == s@.skip(j as int));
        if j == chars.len() {
            assert(t.len() == 0);
            assert(words(rest) =~= Seq::<Seq<char>>::empty());
            assert(slices(out@) =~= words(s@));
            return out;
        }
        let mut k: usize = j;
        while k < chars.len() && !space(chars[k])
            invariant
                chars@ == s@,
                j <= k <= chars.len(),
                forall|m: int| j <= m < k ==> !is_space(#[trigger] s@[m]),
            decreases chars.len() - k,
        {
            k += 1;
        }
        proof {
            let n = k - j;
            assert forall|m: int| 0 <= m < n implies !is_space(#[trigger] t[m]) by {
                assert(t[m] == s@[j + m]);
            }
            lemma_run_until_is(t, None, n);
            assert(!is_space(t[0]));
            assert(t.take(n) =~= s@.subrange(j as int, k as int));
            assert(t.skip(n) =~= s@.skip(k as int));
            assert(words(rest) == seq![t.take(n)] + words(t.skip(n)));
        }
        let ghost before = slices(out@);
        out.push(s.substring_char(j, k));
        assert(slices(out@) =~= before.push(s@.subrange(j as int, k as int)));
        assert(slices(out@) + words(s@.skip(k as int)) =~= before + words(rest));
        i = k;
    }
}

/// Splits a text at every occurrence of a character.
pub fn split_pieces(s: &str, sep: char) -> (r: Vec<&str>)
    ensures
        slices(r@) == pieces(s@, sep),
{
    let chars = chars_of(s);
    let mut out: Vec<&str> = Vec::new();
    let mut i: usize = 0;
    assert(s@.skip(0) =~= s@);
    assert(slices(out@) + pieces(s@, sep) =~= pieces(s@, sep));
    loop
        invariant
            chars@ == s@,
            i <= chars.len(),
            slices(out@) + pieces(s@.skip(i as int), sep) == pieces(s@, sep),
        decreases chars.len() - i,
    {
        let ghost rest = s@.skip(i as int);
        let mut k: usize = i;
        while k < chars.len() && chars[k] != sep
            invariant
                chars@ == s@,
                i <= k <= chars.len(),
                forall|m: int| i <= m < k ==> s@[m] != sep,
            decreases chars.len() - k,
        {
            k += 1;
        }
        proof {
            let n = k - i;
            assert forall|m: int| 0 <= m < n implies #[trigger] rest[m] != sep by {
                assert(rest[m] == s@[i + m]);
            }
            lemma_run_until_is(rest, Some(sep), n);
            assert(rest.take(n) =~= s@.subrange(i as int, k as int));
        }
        let ghost before = slices(out@);
        out.push(s.substring_char(i, k));
        assert(slices(out@) =~= before.push(s@.subrange(i as int, k as int)));
        if k == chars.len() {
            assert(rest =~= s@.subrange(i as int, k as int));
            assert(before + seq![rest] =~= before.push(rest));
            return out;
        }
        assert(rest.skip(k - i + 1) =~= s@.skip(k + 1));
        assert(slices(out@) + pieces(s@.skip(k + 1), sep) =~= before + pieces(rest, sep));
        i = k + 1;
    }
}

proof fn lemma_number_value_push(s: Seq<char>, c: char)
    ensures
        number_value(s.push(c)) == number_value(s) * 10 + (c as u32 - '0' as u32) as nat,
{
    assert(s.push(c).drop_last() =~= s);
}

/// Reads decimal digits from a position on. A number above the limit comes
/// back as one more than the limit.
fn parse_digits(chars: &Vec<char>, start: usize) -> (r: Option<i32>)
    requires
        start <= chars.len(),
    ensures
        r is Some == is_number(chars@.skip(start as int)),
        r matches Some(v) ==> {
            let value = number_value(chars@.skip(start as int));
            v == if value <= 100_000 {
                value as int
            } else {
                100_001
            }
        },
{
    let ghost digits = chars@.skip(start as int);
    if start == chars.len() {
        return None;
    }
    let mut i: usize = start;
    let mut value: i32 = 0;
    while i < chars.len()
        invariant
            start <= i <= chars.len(),
            digits == chars@.skip(start as int),
            forall|k: int| 0 <= k < i - start ==> is_digit(#[trigger] digits[k]),
            0 <= value <= 100_001,
            value <= 100_000 ==> value == number_value(digits.take(i - start)),
            value > 100_000 ==> number_value(digits.take(i - start)) > 100_000,
        decreases chars.len() - i,
    {
        let c = chars[i];
        assert(c == digits[i - start]);
        if !('0' <= c && c <= '9') {
            assert(!is_digit(digits[i - start]));
            return None;
        }
        let d: i32 = (c as u8 - 48) as i32;
        proof {
            lemma_number_value_push(digits.take(i - start), c);
            assert(digits.take(i + 1 - start) =~= digits.take(i - start).push(c));
        }
        value = if value > 10_000 || value * 10 + d > 100_000 {
            100_001
        } else {
            value * 10 + d
        };
        i += 1;
    }
    assert(digits.take(i - start) =~= digits);
    Some(value)
}

/// Reads an integer between two bounds: decimal digits behind an optional
/// sign, and nothing else.
pub fn parse_between(s: &str, low: i32, high: i32) -> (r: Option<i32>)
    requires
        -100_000 <= low <= high <= 100_000,
    ensures
        match r {
            Some(v) => integer_between(s@, low as int, high as int) == Some(v as int),
            None => integer_between(s@, low as int, high as int) is None,
        },
{
    let chars = chars_of(s);
    let signed = chars.len() > 0 && (chars[0] == '+' || chars[0] == '-');
    let negative = signed && chars[0] == '-';
    let start: usize = if signed {
        1
    } else {
        0
    };
    assert(signed ==> s@.skip(1) =~= s@.drop_first());
    assert(!signed ==> s@.skip(0) =~= s@);
    match parse_digits(&chars, start) {
        None => None,
        Some(value) => {
            let result: i32 = if negative {
                -value
            } else {
                value
            };
            if low <= result && result <= high {
                Some(result)
            } else {
                None
            }
        },
    }
}

/// Writes every `from` of a text as `to`.
pub fn replaced(s: &str, from: char, to: &str) -> (r: String)
    requires
        to@.len() == 1,
    ensures
        r@ == with_replaced(s@, from, to@[0]),
{
    let n = s.unicode_len();
    let mut out = String::new();
    let mut i: usize = 0;
    assert(out@ =~= with_replaced(s@, from, to@[0]).take(0));
    while i < n
        invariant
            n == s@.len(),
            i <= n,
            to@.len() == 1,
            out@ == with_replaced(s@, from, to@[0]).take(i as int),
        decreases n - i,
    {
        let ghost all = with_replaced(s@, from, to@[0]);
        let piece = s.substring_char(i, i + 1);
        assert(piece@ =~= seq![s@[i as int]]);
        if s.get_char(i) == from {
            out.append(to);
        } else {
            out.append(piece);
        }
        assert(out@ =~= all.take(i + 1));
        i += 1;
    }
    assert(with_replaced(s@, from, to@[0]).take(n as int) =~= with_replaced(s@, from, to@[0]));
    out
}

fn digit_text(d: u64) -> (r: &'static str)
    requires
        d < 10,
    ensures
        r@ == seq![digit_char(d as nat)],
{
    proof {
        reveal_strlit("0");
        reveal_strlit("1");
        reveal_strlit("2");
        reveal_strlit("3");
        reveal_strlit("4");
        reveal_strlit("5");
        reveal_strlit("6");
        reveal_strlit("7");
        reveal_strlit("8");
        reveal_strlit("9");
    }
    let text = match d {
        0 => "0",
        1 => "1",
        2 => "2",
        3 => "3",
        4 => "4",
        5 => "5",
        6 => "6",
        7 => "7",
        8 => "8",
        _ => "9",
    };
    assert(text@ =~= seq![digit_char(d as nat)]);
    text
}

/// Writes a number in decimal digits.
pub fn decimal(n: u64) -> (r: String)
    ensures
        r@ == decimal_digits(n as nat),
    decreases n,
{
    if n < 10 {
        digit_text(n).to_owned()
    } else {
        let mut out = decimal(n / 10);
        let ghost before = out@;
        out.append(digit_text(n % 10));
        assert(out@ =~= before.push(digit_char((n % 10) as nat)));
        out
    }
}

/// White space is what Unicode has for it: six control characters, the space
/// and the no-break space, and the spaces and separators of other blocks. No
/// letter, digit or mark of ASCII is among them.
pub proof fn lemma_spaces(c: char)
    ensures
        is_space(c) == (0x9 <= c as u32 <= 0xd || c as u32 == 0x20 || c as u32 == 0x85 || c as u32
            == 0xa0 || c as u32 == 0x1680 || 0x2000 <= c as u32 <= 0x200a || 0x2028 <= c as u32
            <= 0x2029 || c as u32 == 0x202f || c as u32 == 0x205f || c as u32 == 0x3000),
        '!' <= c <= '~' ==> !is_space(c),
{
}

proof fn lemma_front(s: Seq<char>) -> (cut: int)
    ensures
        0 <= cut <= s.len(),
        trim_start(s) == s.skip(cut),
        forall|i: int| 0 <= i < cut ==> is_space(#[trigger] s[i]),
        cut < s.len() ==> !is_space(s[cut]),
    decreases s.len(),
{
    if s.len() > 0 && is_space(s[0]) {
        let rest = s.drop_first();
        let cut = lemma_front(rest);
        assert(rest.skip(cut) =~= s.skip(cut + 1));
        assert forall|i: int| 0 <= i < cut + 1 implies is_space(#[trigger] s[i]) by {
            if i > 0 {
                assert(rest[i - 1] == s[i]);
            }
        }
        if cut < rest.len() {
            assert(rest[cut] == s[cut + 1]);
        }
        cut + 1
    } else {
        assert(s.skip(0) =~= s);
        0
    }
}

proof fn lemma_back(s: Seq<char>) -> (cut: int)
    ensures
        0 <= cut <= s.len(),
        trim_end(s) == s.take(cut),
        forall|i: int| cut <= i < s.len() ==> is_space(#[trigger] s[i]),
        cut > 0 ==> !is_space(s[cut - 1]),
    decreases s.len(),
{
    if s.len() > 0 && is_space(s.last()) {
        let rest = s.drop_last();
        let cut = lemma_back(rest);
        assert(rest.take(cut) =~= s.take(cut));
        assert forall|i: int| cut <= i < s.len() implies is_space(#[trigger] s[i]) by {
            if i < rest.len() {
                assert(rest[i] == s[i]);
            }
        }
        cut
    } else {
        assert(s.take(s.len() as int) =~= s);
        s.len() as int
    }
}

/// Trimming takes white space, and all of it, off both ends and nothing else:
/// what stands between two runs of white space, and neither begins nor ends
/// with any, is what is left.
pub proof fn lemma_trimmed(before: Seq<char>, kept: Seq<char>, after: Seq<char>)
    requires
        forall|i: int| 0 <= i < before.len() ==> is_space(#[trigger] before[i]),
        forall|i: int| 0 <= i < after.len() ==> is_space(#[trigger] after[i]),
        kept.len() > 0 ==> !is_space(kept[0]) && !is_space(kept.last()),
    ensures
        trim(before + kept + after) == kept,
{
    let s = before + kept + after;
    let cut = lemma_front(s);
    let left = s.skip(cut);
    let end = lemma_back(left);
    if kept.len() == 0 {
        if cut < s.len() {
            if cut < before.len() {
                assert(s[cut] == before[cut]);
            } else {
                assert(s[cut] == after[cut - before.len()]);
            }
        }
        assert(trim(s) =~= kept);
    } else {
        let first = before.len() as int;
        assert(s[first] == kept[0]);
        if cut < first {
            assert(s[cut] == before[cut]);
        }
        assert(cut == first);
        assert(left =~= kept + after);
        let last = kept.len() - 1;
        assert(left[last] == kept.last());
        if end > kept.len() {
            assert(left[end - 1] == after[end - 1 - kept.len()]);
        }
        assert(end == kept.len());
        assert(left.take(end) =~= kept);
    }
}

/// A text without any word is white space throughout.
pub proof fn lemma_no_words(s: Seq<char>)
    requires
        forall|i: int| 0 <= i < s.len() ==> is_space(#[trigger] s[i]),
    ensures
        words(s) == Seq::<Seq<char>>::empty(),
{
    let cut = lemma_front(s);
    if cut < s.len() {
        assert(is_space(s[cut]));
    }
    assert(trim_start(s).len() == 0);
}

/// White space, a word and a space in front of a text put that word in front
/// of the words of the text.
pub proof fn lemma_first_word(before: Seq<char>, word: Seq<char>, space: char, rest: Seq<char>)
    requires
        forall|i: int| 0 <= i < before.len() ==> is_space(#[trigger] before[i]),
        word.len() > 0,
        forall|i: int| 0 <= i < word.len() ==> !is_space(#[trigger] word[i]),
        is_space(space),
    ensures
        words(before + word + seq![space] + rest) == seq![word] + words(rest),
{
    let s = before + word + seq![space] + rest;
    let tail = seq![space] + rest;
    lemma_word_cut(before, word, tail);
    assert(before + word + tail =~= s);
    assert(tail[0] == space);
    assert(tail.drop_first() =~= rest);
    assert(trim_start(tail) == trim_start(rest));
    assert(words(tail) == words(rest));
}

/// White space and a word at the end of a text are that word.
pub proof fn lemma_last_word(before: Seq<char>, word: Seq<char>)
    requires
        forall|i: int| 0 <= i < before.len() ==> is_space(#[trigger] before[i]),
        word.len() > 0,
        forall|i: int| 0 <= i < word.len() ==> !is_space(#[trigger] word[i]),
    ensures
        words(before + word) == seq![word],
{
    let none = Seq::<char>::empty();
    lemma_word_cut(before, word, none);
    assert(before + word + none =~= before + word);
    lemma_no_words(none);
    assert(seq![word] + words(none) =~= seq![word]);
}

proof fn lemma_word_cut(before: Seq<char>, word: Seq<char>, tail: Seq<char>)
    requires
        forall|i: int| 0 <= i < before.len() ==> is_space(#[trigger] before[i]),
        word.len() > 0,
        forall|i: int| 0 <= i < word.len() ==> !is_space(#[trigger] word[i]),
        tail.len() > 0 ==> is_space(tail[0]),
    ensures
        words(before + word + tail) == seq![word] + words(tail),
{
    let s = before + word + tail;
    let cut = lemma_front(s);
    let first = before.len() as int;
    assert(s[first] == word[0]);
    if cut < first {
        assert(s[cut] == before[cut]);
    }
    assert(cut == first);
    let t = trim_start(s);
    assert(t =~= word + tail);
    let n = word.len() as int;
    assert forall|i: int| 0 <= i < n implies !separates(None, #[trigger] t[i]) by {
        assert(t[i] == word[i]);
    }
    if n < t.len() {
        assert(t[n] == tail[0]);
    }
    lemma_run_until_is(t, None, n);
    assert(t.take(n) =~= word);
    assert(t.skip(n) =~= tail);
}

/// A text without a separator is one piece.
pub proof fn lemma_one_piece(s: Seq<char>, sep: char)
    requires
        !s.contains(sep),
    ensures
        pieces(s, sep) == seq![s],
{
    assert forall|i: int| 0 <= i < s.len() implies !separates(Some(sep), #[trigger] s[i]) by {
        assert(s.contains(s[i]));
    }
    lemma_run_until_is(s, Some(sep), s.len() as int);
}

/// The pieces of two texts with a separator between them are those of the one
/// and those of the other.
pub proof fn lemma_pieces_in_two(a: Seq<char>, sep: char, b: Seq<char>)
    ensures
        pieces(a + seq![sep] + b, sep) == pieces(a, sep) + pieces(b, sep),
    decreases a.len(),
{
    let s = a + seq![sep] + b;
    let n = run_until(a, Some(sep)) as int;
    lemma_run_until(a, Some(sep));
    lemma_run_holds(a, Some(sep));
    assert forall|i: int| 0 <= i < n implies !separates(Some(sep), #[trigger] s[i]) by {
        assert(s[i] == a[i]);
    }
    if n < a.len() {
        assert(s[n] == a[n]);
    } else {
        assert(s[n] == sep);
    }
    lemma_run_until_is(s, Some(sep), n);
    assert(s.take(n) =~= a.take(n));
    if n < a.len() {
        let rest = a.skip(n + 1);
        assert(s.skip(n + 1) =~= rest + seq![sep] + b);
        lemma_pieces_in_two(rest, sep, b);
        assert(pieces(s, sep) =~= pieces(a, sep) + pieces(b, sep));
    } else {
        assert(a.take(n) =~= a);
        assert(s.skip(n + 1) =~= b);
        assert(pieces(s, sep) =~= pieces(a, sep) + pieces(b, sep));
    }
}

proof fn lemma_run_holds(s: Seq<char>, stop: Option<char>)
    ensures
        run_until(s, stop) <= s.len(),
        forall|i: int| 0 <= i < run_until(s, stop) ==> !separates(stop, #[trigger] s[i]),
        run_until(s, stop) < s.len() ==> separates(stop, s[run_until(s, stop) as int]),
    decreases s.len(),
{
    if s.len() > 0 && !separates(stop, s[0]) {
        let t = s.drop_first();
        lemma_run_holds(t, stop);
        assert forall|i: int| 0 <= i < run_until(s, stop) implies !separates(
            stop,
            #[trigger] s[i],
        ) by {
            if i > 0 {
                assert(t[i - 1] == s[i]);
            }
        }
    }
}

/// The decimal digits of a number, read, give the number back: as they are,
/// behind a plus, and behind a minus as its opposite.
pub proof fn lemma_number_read(n: nat)
    ensures
        integer_value(decimal_digits(n)) == Some(n as int),
        integer_value(seq!['+'] + decimal_digits(n)) == Some(n as int),
        integer_value(seq!['-'] + decimal_digits(n)) == Some(-(n as int)),
{
    let digits = decimal_digits(n);
    lemma_digits(n);
    assert(is_digit(digits[0]));
    assert((seq!['+'] + digits).drop_first() =~= digits);
    assert((seq!['-'] + digits).drop_first() =~= digits);
}

proof fn lemma_digits(n: nat)
    ensures
        is_number(decimal_digits(n)),
        number_value(decimal_digits(n)) == n,
    decreases n,
{
    if n < 10 {
        let s = seq![digit_char(n)];
        assert(s.drop_last() =~= Seq::<char>::empty());
        reveal_with_fuel(number_value, 2);
        assert(s.last() as u32 - '0' as u32 == n);
    } else {
        lemma_digits(n / 10);
        lemma_number_value_push(decimal_digits(n / 10), digit_char(n % 10));
    }
}

/// A number is written in its decimal places, from the highest on, without a
/// zero in front.
pub proof fn lemma_digits_written(n: nat, d: nat)
    requires
        d < 10,
    ensures
        decimal_digits(d) == seq!["0123456789"@[d as int]],
        n > 0 ==> decimal_digits(n * 10 + d) == decimal_digits(n).push("0123456789"@[d as int]),
{
    reveal_strlit("0123456789");
    assert((n * 10 + d) / 10 == n && (n * 10 + d) % 10 == d);
}

/// The number that two texts of digits write together is that of the first, one
/// decimal place further left for each digit of the second, and that of the
/// second.
pub proof fn lemma_number_in_two(a: Seq<char>, b: Seq<char>)
    requires
        forall|i: int| 0 <= i < a.len() ==> '0' <= #[trigger] a[i] <= '9',
        forall|i: int| 0 <= i < b.len() ==> '0' <= #[trigger] b[i] <= '9',
    ensures
        number_value(a + b) == number_value(a) * vstd::arithmetic::power::pow(10, b.len())
            + number_value(b),
    decreases b.len(),
{
    if b.len() == 0 {
        assert(a + b =~= a);
        vstd::arithmetic::power::lemma_pow0(10);
    } else {
        let head = b.drop_last();
        assert((a + b).drop_last() =~= a + head);
        assert forall|i: int| 0 <= i < head.len() implies '0' <= #[trigger] head[i] <= '9' by {
            assert(head[i] == b[i]);
        }
        lemma_number_in_two(a, head);
        vstd::arithmetic::power::lemma_pow1(10);
        vstd::arithmetic::power::lemma_pow_adds(10, head.len(), 1);
        let x = number_value(a) as int;
        let p = vstd::arithmetic::power::pow(10, head.len());
        let q = vstd::arithmetic::power::pow(10, b.len());
        assert(b[b.len() - 1] == b.last());
        assert((a + b).last() == b.last());
        assert(x * q == (x * p) * 10) by (nonlinear_arith)
            requires
                q == p * 10,
        ;
    }
}

/// A text that is neither digits nor digits behind one sign writes no integer.
pub proof fn lemma_no_number(s: Seq<char>, at: int)
    requires
        s.len() == 0 || (0 <= at < s.len() && !('0' <= s[at] <= '9') && !(at == 0 && s.len() > 1 && (
        s[0] == '+' || s[0] == '-'))),
    ensures
        integer_value(s) is None,
{
    if s.len() > 0 && (s[0] == '+' || s[0] == '-') {
        let digits = s.drop_first();
        if at > 0 {
            assert(digits[at - 1] == s[at]);
        }
    }
}

/// A text that writes an integer between two bounds is read as that integer,
/// and one that writes another is not read.
pub proof fn lemma_number_bounded(n: nat, low: int, high: int)
    ensures
        integer_between(decimal_digits(n), low, high) == if low <= n <= high {
            Some(n as int)
        } else {
            None
        },
        integer_between(seq!['-'] + decimal_digits(n), low, high) == if low <= -n <= high {
            Some(-(n as int))
        } else {
            None
        },
{
    lemma_number_read(n);
}

/// Case makes no difference to letters of ASCII, and every other character is
/// told from all others: two texts are equal up to case where they are of one
/// length and have, place by place, the same character or one letter in either
/// case.
pub proof fn lemma_case(a: Seq<char>, b: Seq<char>)
    ensures
        equal_ignoring_case(a, b) == (a.len() == b.len() && forall|i: int|
            0 <= i < a.len() ==> #[trigger] a[i] == b[i] || ('A' <= a[i] <= 'Z' && b[i] as u32
                == a[i] as u32 + 32) || ('A' <= b[i] <= 'Z' && a[i] as u32 == b[i] as u32 + 32)),
{
    if a.len() == b.len() {
        assert forall|i: int| 0 <= i < a.len() implies (ascii_lower(#[trigger] a[i])
            == ascii_lower(b[i])) == (a[i] == b[i] || ('A' <= a[i] <= 'Z' && b[i] as u32
            == a[i] as u32 + 32) || ('A' <= b[i] <= 'Z' && a[i] as u32 == b[i] as u32 + 32)) by {
            lemma_lower(a[i]);
            lemma_lower(b[i]);
        }
    }
}

proof fn lemma_lower(c: char)
    ensures
        'A' <= c <= 'Z' ==> ascii_lower(c) as u32 == c as u32 + 32,
        !('A' <= c <= 'Z') ==> ascii_lower(c) == c,
{
}

/// Every occurrence of a character is replaced, each in its place, and no other
/// character changes.
pub proof fn lemma_replaced(s: Seq<char>, from: char, to: char, i: int)
    requires
        0 <= i < s.len(),
    ensures
        with_replaced(s, from, to).len() == s.len(),
        s[i] == from ==> with_replaced(s, from, to)[i] == to,
        s[i] != from ==> with_replaced(s, from, to)[i] == s[i],
{
}

/// A text is split into its words, and into its pieces, one for one and in
/// order.
pub proof fn lemma_split(s: &str, sep: char, a: Vec<&str>, b: Vec<&str>, i: int)
    requires
        call_ensures(split_words, (s,), a),
        call_ensures(split_pieces, (s, sep), b),
    ensures
        a@.len() == words(s@).len(),
        0 <= i < a@.len() ==> a@[i]@ == words(s@)[i],
        b@.len() == pieces(s@, sep).len(),
        0 <= i < b@.len() ==> b@[i]@ == pieces(s@, sep)[i],
{
    let (x, y) = (slices(a@), slices(b@));
    assert(x.len() == a@.len() && y.len() == b@.len());
    if 0 <= i < a@.len() {
        assert(x[i] == a@[i]@);
    }
    if 0 <= i < b@.len() {
        assert(y[i] == b@[i]@);
    }
}

} // verus!
