//! Text as it travels over the link: UTF-8 device names, UTF-16 metadata
//! strings, and the decimal numbers in messages.

use vstd::prelude::*;
use vstd::string::StringExecFns;
use vstd::utf8::{decode_utf8, valid_utf8};

verus! {

/// The characters with the Unicode property White_Space.
pub open spec fn is_white_space(c: char) -> bool {
    let n = c as int;
    ||| 0x09 <= n <= 0x0d
    ||| n == 0x20
    ||| n == 0x85
    ||| n == 0xa0
    ||| n == 0x1680
    ||| 0x2000 <= n <= 0x200a
    ||| n == 0x2028
    ||| n == 0x2029
    ||| n == 0x202f
    ||| n == 0x205f
    ||| n == 0x3000
}

/// `s` without the characters at either end that `strip` accepts.
pub open spec fn trimmed(s: Seq<char>, strip: spec_fn(char) -> bool) -> Seq<char>
    decreases s.len(),
{
    if s.len() > 0 && strip(s.first()) {
        trimmed(s.drop_first(), strip)
    } else if s.len() > 0 && strip(s.last()) {
        trimmed(s.drop_last(), strip)
    } else {
        s
    }
}

/// `s` without white space at either end.
pub open spec fn trimmed_space(s: Seq<char>) -> Seq<char> {
    trimmed(s, |c: char| is_white_space(c))
}

/// `s` without NUL characters at either end.
pub open spec fn trimmed_nul(s: Seq<char>) -> Seq<char> {
    trimmed(s, |c: char| c == '\0')
}

/// What `String::from_utf8_lossy` makes of `bytes`.
pub uninterp spec fn lossy_utf8(bytes: Seq<u8>) -> Seq<char>;

/// The text of `bytes`: what they encode if they are UTF-8, and what is made of them if
/// they are not.
pub open spec fn utf8_decoded(bytes: Seq<u8>) -> Seq<char> {
    if valid_utf8(bytes) {
        decode_utf8(bytes)
    } else {
        lossy_utf8(bytes)
    }
}

/// The text that UTF-16 code units stand for: `None` if a surrogate has no partner.
pub open spec fn utf16_decoded(units: Seq<u16>) -> Option<Seq<char>>
    decreases units.len(),
{
    if units.len() == 0 {
        Some(Seq::empty())
    } else if units[0] < 0xd800 || units[0] > 0xdfff {
        match utf16_decoded(units.skip(1)) {
            Some(rest) => Some(seq![units[0] as char] + rest),
            None => None,
        }
    } else if units[0] < 0xdc00 && units.len() >= 2 && 0xdc00 <= units[1] <= 0xdfff {
        let scalar = 0x1_0000 + (units[0] - 0xd800) * 0x400 + (units[1] - 0xdc00);
        match utf16_decoded(units.skip(2)) {
            Some(rest) => Some(seq![scalar as char] + rest),
            None => None,
        }
    } else {
        None
    }
}

/// The decimal digit for `d`.
pub open spec fn digit(d: nat) -> char {
    (48 + d) as char
}

/// `n` in decimal, without leading zeros.
pub open spec fn decimal(n: nat) -> Seq<char>
    decreases n,
{
    if n < 10 {
        seq![digit(n)]
    } else {
        decimal(n / 10).push(digit(n % 10))
    }
}

/// `parts` with `sep` between neighbours.
pub open spec fn joined(parts: Seq<Seq<char>>, sep: Seq<char>) -> Seq<char>
    decreases parts.len(),
{
    if parts.len() == 0 {
        Seq::empty()
    } else if parts.len() == 1 {
        parts[0]
    } else {
        joined(parts.drop_last(), sep) + sep + parts.last()
    }
}

/// `String::from_utf8_lossy`: the text of `bytes`, in which something else stands for
/// what is not UTF-8. On valid UTF-8 it is the decoded text; what stands for invalid
/// bytes is left to the name `lossy_utf8`.
#[verifier::external_body]
fn from_utf8_lossy(bytes: &[u8]) -> (text: String)
    ensures
        text@ == lossy_utf8(bytes@),
        valid_utf8(bytes@) ==> text@ == decode_utf8(bytes@),
{
    String::from_utf8_lossy(bytes).into_owned()
}

/// The text of `bytes`.
pub fn utf8_text(bytes: &[u8]) -> (text: String)
    ensures
        text@ == utf8_decoded(bytes@),
{
    from_utf8_lossy(bytes)
}

/// `str::trim`: removes the characters with the property White_Space from both ends.
#[verifier::external_body]
pub(crate) fn trim_space(s: &str) -> (rest: &str)
    ensures
        rest@ == trimmed_space(s@),
{
    s.trim()
}

/// `str::trim_matches` with the pattern `'\0'`: removes NUL characters from both ends.
#[verifier::external_body]
pub(crate) fn trim_nul(s: &str) -> (rest: &str)
    ensures
        rest@ == trimmed_nul(s@),
{
    s.trim_matches('\0')
}

/// `String::from_utf16`: decodes UTF-16 code units, and fails on an unpaired surrogate.
#[verifier::external_body]
pub(crate) fn utf16_text(units: &[u16]) -> (text: Option<String>)
    ensures
        text is Some <==> utf16_decoded(units@) is Some,
        text matches Some(t) ==> Some(t@) == utf16_decoded(units@),
{
    String::from_utf16(units).ok()
}

/// The decimal digit for `d`.
fn digit_text(d: u32) -> (text: &'static str)
    requires
        d < 10,
    ensures
        text@ == seq![digit(d as nat)],
{
    proof {
        reveal_strlit("0");
        reveal_strlit("1");
        reveal_strlit("2");
        reveal_strlit("3");
        reveal_strlit("4");
        reveal_strlit("5");
        reveal_strlit("6");
        reveal_strlit("7");
        reveal_strlit("8");
        reveal_strlit("9");
    }
    match d {
        0 => "0",
        1 => "1",
        2 => "2",
        3 => "3",
        4 => "4",
        5 => "5",
        6 => "6",
        7 => "7",
        8 => "8",
        _ => "9",
    }
}

/// `n` in decimal.
pub fn decimal_text(n: u32) -> (text: String)
    ensures
        text@ == decimal(n as nat),
    decreases n,
{
    if n < 10 {
        let text = digit_text(n).to_owned();
        assert(text@ =~= decimal(n as nat));
        text
    } else {
        let mut text = decimal_text(n / 10);
        text.append(digit_text(n % 10));
        assert(text@ =~= decimal(n as nat));
        text
    }
}

/// `parts` with `sep` between neighbours.
pub fn join_text(parts: &Vec<String>, sep: &str) -> (text: String)
    ensures
        text@ == joined(Seq::new(parts@.len(), |i: int| parts@[i]@), sep@),
{
    let ghost all = Seq::new(parts@.len(), |i: int| parts@[i]@);
    let mut text = String::new();
    let mut i: usize = 0;
    while i < parts.len()
        invariant
            i <= parts@.len(),
            all == Seq::new(parts@.len(), |i: int| parts@[i]@),
            text@ == joined(all.take(i as int), sep@),
        decreases parts@.len() - i,
    {
        if i > 0 {
            text.append(sep);
        }
        text.append(parts[i].as_str());
        proof {
            assert(all.take(i + 1).drop_last() =~= all.take(i as int));
            assert(text@ =~= joined(all.take(i + 1), sep@));
        }
        i = i + 1;
    }
    assert(all.take(i as int) =~= all);
    text
}

} // verus!
