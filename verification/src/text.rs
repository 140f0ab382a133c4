//! Text helpers: ASCII case folding, string comparison, decimal numerals
//! and byte buffers.

use vstd::prelude::*;
use vstd::string::*;

verus! {

/// `c` with an ASCII lowercase letter turned into uppercase.
pub open spec fn ascii_upper_char(c: char) -> char {
    if 'a' <= c <= 'z' {
        ((c as u32) - 32) as char
    } else {
        c
    }
}

/// `c` with an ASCII uppercase letter turned into lowercase.
pub open spec fn ascii_lower_char(c: char) -> char {
    if 'A' <= c <= 'Z' {
        ((c as u32) + 32) as char
    } else {
        c
    }
}

/// `s` with its ASCII lowercase letters in uppercase; other characters kept.
pub open spec fn ascii_upper(s: Seq<char>) -> Seq<char> {
    s.map_values(|c: char| ascii_upper_char(c))
}

/// `s` with its ASCII uppercase letters in lowercase; other characters kept.
pub open spec fn ascii_lower(s: Seq<char>) -> Seq<char> {
    s.map_values(|c: char| ascii_lower_char(c))
}

/// Whether two strings hold the same characters.
pub fn str_equal(a: &str, b: &str) -> (r: bool)
    ensures
        r == (a@ == b@),
{
    a.to_owned() == b.to_owned()
}

/// Whether `s`, with its ASCII letters in uppercase, is `target`.
pub fn upper_equals(s: &str, target: &str) -> (r: bool)
    ensures
        r == (ascii_upper(s@) == target@),
{
    let n = s.unicode_len();
    if n != target.unicode_len() {
        assert(ascii_upper(s@).len() != target@.len());
        return false;
    }
    let mut i: usize = 0;
    while i < n
        invariant
            n == s@.len(),
            n == target@.len(),
            0 <= i <= n,
            forall|j: int| 0 <= j < i ==> ascii_upper_char(s@[j]) == target@[j],
        decreases n - i,
    {
        let c = s.get_char(i);
        let t = target.get_char(i);
        let cu = c as u32;
        let up: u32 = if 97 <= cu && cu <= 122 {
            cu - 32
        } else {
            cu
        };
        proof {
            vstd::utf8::char_u32_cast(t, t as u32);
            vstd::utf8::char_u32_cast(c, cu);
        }
        if up != t as u32 {
            assert(ascii_upper(s@)[i as int] != target@[i as int]);
            return false;
        }
        i = i + 1;
    }
    assert(ascii_upper(s@) =~= target@);
    true
}

/// Whether `s`, with its ASCII letters in lowercase, is `target`.
pub fn lower_equals(s: &str, target: &str) -> (r: bool)
    ensures
        r == (ascii_lower(s@) == target@),
{
    let n = s.unicode_len();
    if n != target.unicode_len() {
        assert(ascii_lower(s@).len() != target@.len());
        return false;
    }
    let mut i: usize = 0;
    while i < n
        invariant
            n == s@.len(),
            n == target@.len(),
            0 <= i <= n,
            forall|j: int| 0 <= j < i ==> ascii_lower_char(s@[j]) == target@[j],
        decreases n - i,
    {
        let c = s.get_char(i);
        let t = target.get_char(i);
        let cu = c as u32;
        let low: u32 = if 65 <= cu && cu <= 90 {
            cu + 32
        } else {
            cu
        };
        proof {
            vstd::utf8::char_u32_cast(t, t as u32);
            vstd::utf8::char_u32_cast(c, cu);
        }
        if low != t as u32 {
            assert(ascii_lower(s@)[i as int] != target@[i as int]);
            return false;
        }
        i = i + 1;
    }
    assert(ascii_lower(s@) =~= target@);
    true
}


/// The decimal numeral of `n` in ASCII digits, without leading zeros.
pub open spec fn decimal_digits(n: nat) -> Seq<u8>
    decreases n,
{
    if n < 10 {
        seq![(48 + n) as u8]
    } else {
        decimal_digits(n / 10).push((48 + n % 10) as u8)
    }
}

/// The number that a string of ASCII digits denotes.
pub open spec fn decimal_value(digits: Seq<u8>) -> int
    decreases digits.len(),
{
    if digits.len() == 0 {
        0
    } else {
        decimal_value(digits.drop_last()) * 10 + (digits.last() - 48)
    }
}

/// An ASCII decimal digit.
pub open spec fn is_digit(b: u8) -> bool {
    48 <= b <= 57
}

/// The numeral of `n` is made of digits, starts with a nonzero digit unless
/// `n` is 0, and denotes `n`.
pub proof fn lemma_decimal_digits(n: nat)
    ensures
        decimal_digits(n).len() > 0,
        forall|i: int| 0 <= i < decimal_digits(n).len() ==> is_digit(#[trigger] decimal_digits(n)[i]),
        n > 0 ==> decimal_digits(n)[0] != 48,
        decimal_value(decimal_digits(n)) == n,
    decreases n,
{
    if n >= 10 {
        lemma_decimal_digits(n / 10);
        let d = decimal_digits(n);
        assert(d.drop_last() =~= decimal_digits(n / 10));
        assert(d[0] == decimal_digits(n / 10)[0]);
        assert(d.last() == (48 + n % 10) as u8);
        assert(d.last() - 48 == n % 10);
        assert(n == (n / 10) * 10 + n % 10);
        assert(decimal_value(d) == decimal_value(d.drop_last()) * 10 + (d.last() - 48));
    } else {
        let d = decimal_digits(n);
        assert(d.drop_last() =~= Seq::<u8>::empty());
        assert(d.last() == (48 + n) as u8);
        assert(d.last() - 48 == n);
        assert(decimal_value(d) == decimal_value(d.drop_last()) * 10 + (d.last() - 48));
    }
}

/// The decimal numeral of `n` as characters.
pub open spec fn decimal_text(n: nat) -> Seq<char> {
    decimal_digits(n).map_values(|b: u8| b as char)
}

/// The one-character numeral of the digit `d`.
fn digit_string(d: u64) -> (s: String)
    requires
        d < 10,
    ensures
        s@ == seq![((48 + d) as u8) as char],
{
    proof {
        reveal_strlit("0");
        reveal_strlit("1");
        reveal_strlit("2");
        reveal_strlit("3");
        reveal_strlit("4");
        reveal_strlit("5");
        reveal_strlit("6");
        reveal_strlit("7");
        reveal_strlit("8");
        reveal_strlit("9");
    }
    let text: &str = if d == 0 {
        "0"
    } else if d == 1 {
        "1"
    } else if d == 2 {
        "2"
    } else if d == 3 {
        "3"
    } else if d == 4 {
        "4"
    } else if d == 5 {
        "5"
    } else if d == 6 {
        "6"
    } else if d == 7 {
        "7"
    } else if d == 8 {
        "8"
    } else {
        "9"
    };
    let s = String::from_str(text);
    assert(s@ =~= seq![((48 + d) as u8) as char]);
    s
}

/// The decimal numeral of `n`.
pub fn decimal_string(n: u64) -> (s: String)
    ensures
        s@ == decimal_text(n as nat),
    decreases n,
{
    if n >= 10 {
        let head = decimal_string(n / 10);
        let last = digit_string(n % 10);
        let s = head.concat(last.as_str());
        proof {
            let b = (48 + n % 10) as u8;
            assert(decimal_digits(n as nat) == decimal_digits((n / 10) as nat).push(b));
            assert(decimal_text(n as nat) =~= decimal_text((n / 10) as nat).push(b as char));
        }
        assert(s@ =~= decimal_text(n as nat));
        s
    } else {
        let s = digit_string(n);
        assert(s@ =~= decimal_text(n as nat));
        s
    }
}

/// Appends the decimal numeral of `n` to `out`.
pub fn push_decimal(out: &mut Vec<u8>, n: usize)
    ensures
        final(out)@ == old(out)@ + decimal_digits(n as nat),
    decreases n,
{
    if n >= 10 {
        push_decimal(out, n / 10);
    }
    let digit: u8 = (48 + n % 10) as u8;
    out.push(digit);
    proof {
        if n >= 10 {
            assert(decimal_digits(n as nat) == decimal_digits((n / 10) as nat).push(digit));
        }
    }
    assert(final(out)@ =~= old(out)@ + decimal_digits(n as nat));
}

/// Appends `bytes` to `out`.
pub fn append_bytes(out: &mut Vec<u8>, bytes: &[u8])
    ensures
        final(out)@ == old(out)@ + bytes@,
{
    let ghost start = out@;
    let n = bytes.len();
    let mut i: usize = 0;
    while i < n
        invariant
            n == bytes@.len(),
            0 <= i <= n,
            out@ == start + bytes@.take(i as int),
        decreases n - i,
    {
        out.push(bytes[i]);
        assert(bytes@.take(i + 1) =~= bytes@.take(i as int).push(bytes@[i as int]));
        i = i + 1;
    }
    assert(bytes@.take(n as int) =~= bytes@);
}


/// A Unicode `White_Space` character, the set that trimming removes.
pub open spec fn is_whitespace(c: char) -> bool {
    let u = c as u32;
    ||| 0x9 <= u <= 0xd
    ||| u == 0x20
    ||| u == 0x85
    ||| u == 0xa0
    ||| u == 0x1680
    ||| 0x2000 <= u <= 0x200a
    ||| u == 0x2028
    ||| u == 0x2029
    ||| u == 0x202f
    ||| u == 0x205f
    ||| u == 0x3000
}

/// `s` without its leading whitespace.
pub open spec fn trim_start(s: Seq<char>) -> Seq<char>
    decreases s.len(),
{
    if s.len() > 0 && is_whitespace(s[0]) {
        trim_start(s.drop_first())
    } else {
        s
    }
}

/// `s` without its trailing whitespace.
pub open spec fn trim_end(s: Seq<char>) -> Seq<char>
    decreases s.len(),
{
    if s.len() > 0 && is_whitespace(s.last()) {
        trim_end(s.drop_last())
    } else {
        s
    }
}

/// `s` without leading and trailing whitespace.
pub open spec fn trim(s: Seq<char>) -> Seq<char> {
    trim_end(trim_start(s))
}

/// Whether `c` is a whitespace character.
pub fn char_is_whitespace(c: char) -> (r: bool)
    ensures
        r == is_whitespace(c),
{
    let u = c as u32;
    (0x9 <= u && u <= 0xd) || u == 0x20 || u == 0x85 || u == 0xa0 || u == 0x1680 || (0x2000 <= u
        && u <= 0x200a) || u == 0x2028 || u == 0x2029 || u == 0x202f || u == 0x205f || u == 0x3000
}

/// `s` without leading and trailing whitespace.
pub fn trim_whitespace(s: &str) -> (r: String)
    ensures
        r@ == trim(s@),
{
    let n = s.unicode_len();
    let mut start: usize = 0;
    assert(s@.subrange(0, n as int) =~= s@);
    while start < n && char_is_whitespace(s.get_char(start))
        invariant
            n == s@.len(),
            0 <= start <= n,
            trim_start(s@) == trim_start(s@.subrange(start as int, n as int)),
        decreases n - start,
    {
        assert(s@.subrange(start as int, n as int).drop_first() =~= s@.subrange(
            start + 1,
            n as int,
        ));
        start = start + 1;
    }
    assert(trim_start(s@) == s@.subrange(start as int, n as int)) by {
        if start < n {
            assert(s@.subrange(start as int, n as int)[0] == s@[start as int]);
        }
    }
    let mut end: usize = n;
    while end > start && char_is_whitespace(s.get_char(end - 1))
        invariant
            n == s@.len(),
            0 <= start <= end <= n,
            trim(s@) == trim_end(s@.subrange(start as int, end as int)),
        decreases end,
    {
        assert(s@.subrange(start as int, end as int).drop_last() =~= s@.subrange(
            start as int,
            end - 1,
        ));
        end = end - 1;
    }
    assert(trim(s@) == s@.subrange(start as int, end as int)) by {
        if end > start {
            assert(s@.subrange(start as int, end as int).last() == s@[end - 1]);
        }
    }
    s.substring_char(start, end).to_owned()
}


/// Upper-casing moves exactly the ASCII lowercase letters, each 32 code
/// points down to its capital, and leaves every other character as it is.
pub proof fn lemma_ascii_upper_moves_only_lowercase(c: char)
    ensures
        'a' <= c <= 'z' ==> ascii_upper_char(c) as u32 == c as u32 - 32 && 'A' <= ascii_upper_char(c)
            <= 'Z',
        !('a' <= c <= 'z') ==> ascii_upper_char(c) == c,
{
}

/// Lower-casing moves exactly the ASCII capitals, each 32 code points up
/// to its lowercase letter, and leaves every other character as it is.
pub proof fn lemma_ascii_lower_moves_only_uppercase(c: char)
    ensures
        'A' <= c <= 'Z' ==> ascii_lower_char(c) as u32 == c as u32 + 32 && 'a' <= ascii_lower_char(c)
            <= 'z',
        !('A' <= c <= 'Z') ==> ascii_lower_char(c) == c,
{
}

/// Trimming keeps a contiguous middle part of the text and drops only
/// whitespace around it: the part neither starts nor ends with whitespace,
/// and everything before and after it is whitespace.
pub proof fn lemma_trim_drops_only_surrounding_whitespace(s: Seq<char>)
    ensures
        exists|a: int, b: int|
            {
                &&& 0 <= a <= b <= s.len()
                &&& trim(s) == s.subrange(a, b)
                &&& forall|i: int| 0 <= i < a ==> is_whitespace(#[trigger] s[i])
                &&& forall|i: int| b <= i < s.len() ==> is_whitespace(#[trigger] s[i])
                &&& a < b ==> !is_whitespace(s[a]) && !is_whitespace(s[b - 1])
            },
{
    let a = lemma_trim_start_skips(s);
    let t = s.subrange(a, s.len() as int);
    let b = lemma_trim_end_skips(t);
    assert(trim(s) == t.subrange(0, b));
    assert(t.subrange(0, b) =~= s.subrange(a, a + b));
    assert forall|i: int| a + b <= i < s.len() implies is_whitespace(#[trigger] s[i]) by {
        assert(s[i] == t[i - a]);
    }
    if b > 0 {
        assert(s[a + b - 1] == t[b - 1]);
        assert(s[a] == t[0]);
    }
    assert({
        &&& 0 <= a <= a + b <= s.len()
        &&& trim(s) == s.subrange(a, a + b)
        &&& forall|i: int| 0 <= i < a ==> is_whitespace(#[trigger] s[i])
        &&& forall|i: int| a + b <= i < s.len() ==> is_whitespace(#[trigger] s[i])
        &&& a < a + b ==> !is_whitespace(s[a]) && !is_whitespace(s[a + b - 1])
    });
}

/// Trimming the start drops the leading whitespace, up to the first other
/// character.
proof fn lemma_trim_start_skips(s: Seq<char>) -> (a: int)
    ensures
        0 <= a <= s.len(),
        trim_start(s) == s.subrange(a, s.len() as int),
        forall|i: int| 0 <= i < a ==> is_whitespace(#[trigger] s[i]),
        a < s.len() ==> !is_whitespace(s[a]),
    decreases s.len(),
{
    if s.len() > 0 && is_whitespace(s[0]) {
        let a1 = lemma_trim_start_skips(s.drop_first());
        assert(s.drop_first().subrange(a1, s.drop_first().len() as int) =~= s.subrange(
            a1 + 1,
            s.len() as int,
        ));
        assert forall|i: int| 0 <= i < a1 + 1 implies is_whitespace(#[trigger] s[i]) by {
            if i > 0 {
                assert(s[i] == s.drop_first()[i - 1]);
            }
        }
        if a1 + 1 < s.len() {
            assert(s[a1 + 1] == s.drop_first()[a1]);
        }
        a1 + 1
    } else {
        assert(s.subrange(0, s.len() as int) =~= s);
        0
    }
}

/// Trimming the end drops the trailing whitespace, back to the last other
/// character.
proof fn lemma_trim_end_skips(s: Seq<char>) -> (b: int)
    ensures
        0 <= b <= s.len(),
        trim_end(s) == s.subrange(0, b),
        forall|i: int| b <= i < s.len() ==> is_whitespace(#[trigger] s[i]),
        b > 0 ==> !is_whitespace(s[b - 1]),
    decreases s.len(),
{
    if s.len() > 0 && is_whitespace(s.last()) {
        let b1 = lemma_trim_end_skips(s.drop_last());
        assert(s.drop_last().subrange(0, b1) =~= s.subrange(0, b1));
        assert forall|i: int| b1 <= i < s.len() implies is_whitespace(#[trigger] s[i]) by {
            if i < s.len() - 1 {
                assert(s[i] == s.drop_last()[i]);
            }
        }
        if b1 > 0 {
            assert(s[b1 - 1] == s.drop_last()[b1 - 1]);
        }
        b1
    } else {
        assert(s.subrange(0, s.len() as int) =~= s);
        s.len() as int
    }
}

} // verus!
