//! Texts as sequences of characters: from a string to its characters and
//! back, lower case, and decimal numerals.

use vstd::prelude::*;
use vstd::std_specs::iter::IteratorSpec;

verus! {

/// The lower-case form of a text, as Unicode defines it: what
/// `str::to_lowercase` of std returns. Nothing else is said of it here.
pub uninterp spec fn lowercase(s: Seq<char>) -> Seq<char>;

/// The upper-case form of a text, as Unicode defines it: what
/// `str::to_uppercase` of std returns. Nothing else is said of it here.
pub uninterp spec fn uppercase(s: Seq<char>) -> Seq<char>;

/// Taken on trust of `str::to_uppercase` of std: it returns the upper-case
/// form of the text, which depends on the text alone.
pub assume_specification[ str::to_uppercase ](s: &str) -> (r: String)
    ensures
        r@ == uppercase(s@),
;

/// Taken on trust of `String::push` of std: it appends the character to the
/// end of the string and leaves the rest as it was.
pub assume_specification[ String::push ](s: &mut String, c: char)
    ensures
        final(s)@ == old(s)@.push(c),
;

/// Taken on trust of `str::to_lowercase` of std: it returns the lower-case
/// form of the text, which depends on the text alone.
pub assume_specification[ str::to_lowercase ](s: &str) -> (r: String)
    ensures
        r@ == lowercase(s@),
;

/// Whether every character of the text is an ASCII character.
pub open spec fn is_ascii_text(s: Seq<char>) -> bool {
    forall|i: int| 0 <= i < s.len() ==> (#[trigger] s[i]) as u32 <= 0x7f
}

/// The small letter of a capital ASCII letter; any other character itself.
pub open spec fn lower_char(c: char) -> char {
    if 0x41 <= c as u32 <= 0x5a {
        ((c as u32) + 32) as char
    } else {
        c
    }
}

/// The capital letter of a small ASCII letter; any other character itself.
pub open spec fn upper_char(c: char) -> char {
    if 0x61 <= c as u32 <= 0x7a {
        ((c as u32) - 32) as char
    } else {
        c
    }
}

/// The lower-case form of a text. Of a text of ASCII characters it is the
/// text with a small letter for each capital letter; of any other text it is
/// what Unicode defines.
pub open spec fn lowered(s: Seq<char>) -> Seq<char> {
    if is_ascii_text(s) {
        Seq::new(s.len(), |i: int| lower_char(s[i]))
    } else {
        lowercase(s)
    }
}

/// The upper-case form of a text. Of a text of ASCII characters it is the
/// text with a capital letter for each small letter; of any other text it is
/// what Unicode defines.
pub open spec fn raised(s: Seq<char>) -> Seq<char> {
    if is_ascii_text(s) {
        Seq::new(s.len(), |i: int| upper_char(s[i]))
    } else {
        uppercase(s)
    }
}

/// The characters of `s`, one by one.
pub fn to_chars(s: &str) -> (chars: Vec<char>)
    ensures
        chars@ == s@,
{
    let mut chars: Vec<char> = Vec::new();
    for c in it: s.chars()
        invariant
            it.seq() == s@,
            chars@ == it.seq().take(it.index()),
    {
        assert(it.seq().take(it.index() + 1) =~= it.seq().take(it.index()).push(c));
        chars.push(c);
    }
    assert(chars@ =~= s@);
    chars
}

/// The string of the characters `chars[from..to]`.
pub fn string_of(chars: &[char], from: usize, to: usize) -> (s: String)
    requires
        from <= to <= chars@.len(),
    ensures
        s@ == chars@.subrange(from as int, to as int),
{
    let mut s = String::new();
    let mut i = from;
    while i < to
        invariant
            from <= i <= to <= chars@.len(),
            s@ == chars@.subrange(from as int, i as int),
        decreases to - i,
    {
        assert(chars@.subrange(from as int, i + 1) =~= chars@.subrange(from as int, i as int).push(
            chars@[i as int],
        ));
        s.push(chars[i]);
        i += 1;
    }
    s
}

/// Whether every one of the characters is an ASCII character.
pub fn all_ascii(chars: &[char]) -> (b: bool)
    ensures
        b == is_ascii_text(chars@),
{
    let mut i: usize = 0;
    while i < chars.len()
        invariant
            i <= chars.len(),
            forall|k: int| 0 <= k < i ==> (#[trigger] chars@[k]) as u32 <= 0x7f,
        decreases chars.len() - i,
    {
        if chars[i] as u32 > 0x7f {
            return false;
        }
        i += 1;
    }
    true
}

/// The lower-case form of the text.
pub fn to_lower(s: &str) -> (r: String)
    ensures
        r@ == lowered(s@),
{
    let chars = to_chars(s);
    if !all_ascii(chars.as_slice()) {
        return s.to_lowercase();
    }
    let mut r = String::new();
    let mut i: usize = 0;
    while i < chars.len()
        invariant
            i <= chars.len(),
            r@.len() == i,
            forall|k: int| 0 <= k < i ==> r@[k] == lower_char(chars@[k]),
        decreases chars.len() - i,
    {
        let c = chars[i];
        let u = c as u32;
        if 0x41 <= u && u <= 0x5a {
            r.push(((u + 32) as u8) as char);
        } else {
            r.push(c);
        }
        i += 1;
    }
    assert(r@ =~= lowered(s@));
    r
}

/// The upper-case form of the text.
pub fn to_upper(s: &str) -> (r: String)
    ensures
        r@ == raised(s@),
{
    let chars = to_chars(s);
    if !all_ascii(chars.as_slice()) {
        return s.to_uppercase();
    }
    let mut r = String::new();
    let mut i: usize = 0;
    while i < chars.len()
        invariant
            i <= chars.len(),
            r@.len() == i,
            forall|k: int| 0 <= k < i ==> r@[k] == upper_char(chars@[k]),
        decreases chars.len() - i,
    {
        let c = chars[i];
        let u = c as u32;
        if 0x61 <= u && u <= 0x7a {
            r.push(((u - 32) as u8) as char);
        } else {
            r.push(c);
        }
        i += 1;
    }
    assert(r@ =~= raised(s@));
    r
}

/// The digit that stands for `d`.
pub open spec fn digit_char(d: nat) -> char {
    if d == 0 {
        '0'
    } else if d == 1 {
        '1'
    } else if d == 2 {
        '2'
    } else if d == 3 {
        '3'
    } else if d == 4 {
        '4'
    } else if d == 5 {
        '5'
    } else if d == 6 {
        '6'
    } else if d == 7 {
        '7'
    } else if d == 8 {
        '8'
    } else {
        '9'
    }
}

/// The decimal numeral of `n`, without leading zeros.
pub open spec fn decimal(n: nat) -> Seq<char>
    decreases n,
{
    if n < 10 {
        seq![digit_char(n)]
    } else {
        decimal(n / 10).push(digit_char(n % 10))
    }
}

fn digit(d: u64) -> (c: char)
    requires
        d < 10,
    ensures
        c == digit_char(d as nat),
{
    if d == 0 {
        '0'
    } else if d == 1 {
        '1'
    } else if d == 2 {
        '2'
    } else if d == 3 {
        '3'
    } else if d == 4 {
        '4'
    } else if d == 5 {
        '5'
    } else if d == 6 {
        '6'
    } else if d == 7 {
        '7'
    } else if d == 8 {
        '8'
    } else {
        '9'
    }
}

fn push_decimal(s: &mut String, n: u64)
    ensures
        final(s)@ == old(s)@ + decimal(n as nat),
    decreases n,
{
    if n < 10 {
        s.push(digit(n));
        assert(final(s)@ =~= old(s)@ + decimal(n as nat));
    } else {
        push_decimal(s, n / 10);
        s.push(digit(n % 10));
        assert(final(s)@ =~= old(s)@ + decimal(n as nat));
    }
}

/// The decimal numeral of `n`.
pub fn decimal_string(n: u64) -> (s: String)
    ensures
        s@ == decimal(n as nat),
{
    let mut s = String::new();
    push_decimal(&mut s, n);
    assert(Seq::<char>::empty() + decimal(n as nat) =~= decimal(n as nat));
    s
}

} // verus!
