//! Text helpers: Unicode white space, blank names and decimal identifiers.
use vstd::prelude::*;

verus! {

broadcast use vstd::string::axiom_spec_iter;

/// The Unicode `White_Space` property (the set that `char::is_whitespace` and
/// `str::trim` use): U+0009..U+000D, U+0020, U+0085, U+00A0, U+1680,
/// U+2000..U+200A, U+2028, U+2029, U+202F, U+205F and U+3000.
pub open spec fn is_white_space(c: char) -> bool {
    let n = c as u32;
    ||| 0x09 <= n <= 0x0D
    ||| n == 0x20
    ||| n == 0x85
    ||| n == 0xA0
    ||| n == 0x1680
    ||| 0x2000 <= n <= 0x200A
    ||| n == 0x2028
    ||| n == 0x2029
    ||| n == 0x202F
    ||| n == 0x205F
    ||| n == 0x3000
}

/// Every character of `s` is white space (so `s` trims to the empty string).
pub open spec fn is_blank_text(s: Seq<char>) -> bool {
    forall|i: int| 0 <= i < s.len() ==> is_white_space(#[trigger] s[i])
}

/// `s` without its leading white space.
pub open spec fn trim_start_text(s: Seq<char>) -> Seq<char>
    decreases s.len(),
{
    if s.len() > 0 && is_white_space(s[0]) {
        trim_start_text(s.drop_first())
    } else {
        s
    }
}

/// `s` without its trailing white space.
pub open spec fn trim_end_text(s: Seq<char>) -> Seq<char>
    decreases s.len(),
{
    if s.len() > 0 && is_white_space(s.last()) {
        trim_end_text(s.drop_last())
    } else {
        s
    }
}

/// `s` without its leading and trailing white space.
pub open spec fn trim_text(s: Seq<char>) -> Seq<char> {
    trim_end_text(trim_start_text(s))
}

pub open spec fn is_ascii_digit(c: char) -> bool {
    '0' <= c <= '9'
}

pub open spec fn digit_value(c: char) -> nat {
    (c as u32 - '0' as u32) as nat
}

/// The ASCII digit of `d` (for `d < 10`).
pub open spec fn digit_char(d: nat) -> char {
    ('0' as u32 + d) as char
}

/// The decimal representation of `n`, most significant digit first, as `Display`
/// writes an unsigned integer.
pub open spec fn decimal_text(n: nat) -> Seq<char>
    decreases n,
{
    if n < 10 {
        seq![digit_char(n)]
    } else {
        decimal_text(n / 10).push(digit_char(n % 10))
    }
}

/// The number that a sequence of decimal digits denotes.
pub open spec fn decimal_value(d: Seq<char>) -> nat
    decreases d.len(),
{
    if d.len() == 0 {
        0
    } else {
        decimal_value(d.drop_last()) * 10 + digit_value(d.last())
    }
}

/// The digits of an unsigned decimal literal: the text after an optional `+`.
pub open spec fn unsigned_digits(t: Seq<char>) -> Seq<char> {
    if t.len() > 0 && t[0] == '+' {
        t.drop_first()
    } else {
        t
    }
}

/// What parsing `s` as a `u64` after trimming gives: `Some` exactly when the trimmed
/// text is an optional `+` followed by one or more ASCII digits whose value fits.
pub open spec fn parsed_u64(s: Seq<char>) -> Option<u64> {
    let d = unsigned_digits(trim_text(s));
    if d.len() > 0 && (forall|i: int| 0 <= i < d.len() ==> is_ascii_digit(#[trigger] d[i]))
        && decimal_value(d) <= u64::MAX {
        Some(decimal_value(d) as u64)
    } else {
        None
    }
}

/// Whether `c` has the Unicode `White_Space` property.
pub fn is_white_space_char(c: char) -> (r: bool)
    ensures
        r == is_white_space(c),
{
    let n = c as u32;
    (0x09 <= n && n <= 0x0D) || n == 0x20 || n == 0x85 || n == 0xA0 || n == 0x1680 || (0x2000
        <= n && n <= 0x200A) || n == 0x2028 || n == 0x2029 || n == 0x202F || n == 0x205F || n
        == 0x3000
}

/// Whether `s` holds nothing but white space (the empty string included).
pub fn is_blank(s: &str) -> (r: bool)
    ensures
        r == is_blank_text(s@),
{
    let mut all_white = true;
    for c in it: s.chars()
        invariant
            it.seq() == s@,
            all_white == (forall|i: int| 0 <= i < it.index() ==> is_white_space(#[trigger] s@[i])),
    {
        if !is_white_space_char(c) {
            all_white = false;
        }
    }
    all_white
}

/// The characters of `s`, in order.
pub fn chars_of(s: &str) -> (r: Vec<char>)
    ensures
        r@ == s@,
{
    let mut out: Vec<char> = Vec::new();
    for c in it: s.chars()
        invariant
            it.seq() == s@,
            out@ == s@.take(it.index() as int),
    {
        out.push(c);
    }
    out
}


proof fn lemma_trim_start_skips(s: Seq<char>, k: int)
    requires
        0 <= k <= s.len(),
        forall|i: int| 0 <= i < k ==> is_white_space(#[trigger] s[i]),
    ensures
        trim_start_text(s) == trim_start_text(s.subrange(k, s.len() as int)),
    decreases k,
{
    if k == 0 {
        assert(s.subrange(0, s.len() as int) =~= s);
    } else {
        assert(is_white_space(s[0]));
        let t = s.drop_first();
        assert forall|i: int| 0 <= i < k - 1 implies is_white_space(#[trigger] t[i]) by {
            assert(t[i] == s[i + 1]);
        }
        lemma_trim_start_skips(t, k - 1);
        assert(t.subrange(k - 1, t.len() as int) =~= s.subrange(k, s.len() as int));
    }
}

proof fn lemma_trim_end_skips(s: Seq<char>, k: int)
    requires
        0 <= k <= s.len(),
        forall|i: int| k <= i < s.len() ==> is_white_space(#[trigger] s[i]),
    ensures
        trim_end_text(s) == trim_end_text(s.subrange(0, k)),
    decreases s.len() - k,
{
    if k == s.len() {
        assert(s.subrange(0, k) =~= s);
    } else {
        assert(is_white_space(s.last()));
        let t = s.drop_last();
        lemma_trim_end_skips(t, k);
        assert(t.subrange(0, k) =~= s.subrange(0, k));
    }
}

proof fn lemma_decimal_value_prefix_grows(d: Seq<char>, k: int)
    requires
        0 <= k <= d.len(),
        forall|i: int| 0 <= i < d.len() ==> is_ascii_digit(#[trigger] d[i]),
    ensures
        decimal_value(d.take(k)) <= decimal_value(d),
    decreases d.len() - k,
{
    if k < d.len() {
        lemma_decimal_value_prefix_grows(d, k + 1);
        assert(d.take(k + 1).drop_last() =~= d.take(k));
    } else {
        assert(d.take(k) =~= d);
    }
}

/// Parses `s` as an unsigned decimal number after trimming its white space, as
/// `s.trim().parse::<u64>().ok()` does.
pub fn parse_u64(s: &str) -> (r: Option<u64>)
    ensures
        r == parsed_u64(s@),
{
    let chars = chars_of(s);
    let n = chars.len();
    let ghost text = s@;
    let mut a: usize = 0;
    while a < n && is_white_space_char(chars[a])
        invariant
            chars@ == text,
            n == text.len(),
            a <= n,
            forall|i: int| 0 <= i < a ==> is_white_space(#[trigger] text[i]),
        decreases n - a,
    {
        a = a + 1;
    }
    proof {
        lemma_trim_start_skips(text, a as int);
        let rest = text.subrange(a as int, n as int);
        if rest.len() > 0 {
            assert(rest[0] == text[a as int]);
        }
        assert(trim_start_text(rest) == rest);
    }
    let ghost rest = text.subrange(a as int, n as int);
    let mut b: usize = n;
    while b > a && is_white_space_char(chars[b - 1])
        invariant
            chars@ == text,
            n == text.len(),
            a <= b <= n,
            rest == text.subrange(a as int, n as int),
            forall|i: int| b <= i < n ==> is_white_space(#[trigger] text[i]),
        decreases b,
    {
        b = b - 1;
    }
    let ghost t = text.subrange(a as int, b as int);
    proof {
        assert forall|i: int| (b - a) <= i < rest.len() implies is_white_space(#[trigger] rest[i]) by {
            assert(rest[i] == text[a + i]);
        }
        lemma_trim_end_skips(rest, (b - a) as int);
        assert(rest.subrange(0, (b - a) as int) =~= t);
        if t.len() > 0 {
            assert(t.last() == text[b - 1]);
        }
        assert(trim_end_text(t) == t);
        assert(trim_text(text) == t);
    }
    let mut start = a;
    if a < b && chars[a] == '+' {
        start = a + 1;
    }
    let ghost d = text.subrange(start as int, b as int);
    assert(unsigned_digits(t) =~= d);
    if start >= b {
        return None;
    }
    let mut i: usize = start;
    while i < b
        invariant
            chars@ == text,
            n == text.len(),
            start <= i <= b <= n,
            d == text.subrange(start as int, b as int),
            text == s@,
            unsigned_digits(trim_text(s@)) == d,
            forall|j: int| 0 <= j < i - start ==> is_ascii_digit(#[trigger] d[j]),
        decreases b - i,
    {
        let c = chars[i];
        if !('0' <= c && c <= '9') {
            assert(d[i - start] == c);
            return None;
        }
        assert(d[i - start] == c);
        i = i + 1;
    }
    let mut acc: u64 = 0;
    let mut k: usize = start;
    while k < b
        invariant
            chars@ == text,
            n == text.len(),
            start <= k <= b <= n,
            d == text.subrange(start as int, b as int),
            text == s@,
            unsigned_digits(trim_text(s@)) == d,
            forall|j: int| 0 <= j < d.len() ==> is_ascii_digit(#[trigger] d[j]),
            acc == decimal_value(d.take(k - start)),
        decreases b - k,
    {
        let c = chars[k];
        let ghost m = (k - start) as int;
        assert(d[m] == c);
        assert(d.take(m + 1).drop_last() =~= d.take(m));
        assert(d.take(m + 1).last() == c);
        let digit: u64 = ((c as u32) - ('0' as u32)) as u64;
        match acc.checked_mul(10) {
            None => {
                proof {
                    lemma_decimal_value_prefix_grows(d, m + 1);
                }
                return None;
            },
            Some(t10) => match t10.checked_add(digit) {
                None => {
                    proof {
                        lemma_decimal_value_prefix_grows(d, m + 1);
                    }
                    return None;
                },
                Some(next) => {
                    acc = next;
                },
            },
        }
        k = k + 1;
    }
    assert(d.take(d.len() as int) =~= d);
    Some(acc)
}

} // verus!
