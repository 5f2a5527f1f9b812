//! What trimming, decoding and putting together do to text.

use crate::laws::wire::utf16_encoded;
use crate::text::{
    decimal, is_white_space, joined, trimmed, trimmed_nul, trimmed_space, utf16_decoded,
};
use vstd::prelude::*;

verus! {

/// White space in the sense of Unicode: the tabulators and line ends, the blanks of every
/// width, and the separators of lines and paragraphs.
pub proof fn law_white_space(c: char)
    ensures
        is_white_space(c) <==> seq![
            0x09int, 0x0a, 0x0b, 0x0c, 0x0d, 0x20, 0x85, 0xa0, 0x1680, 0x2000, 0x2001, 0x2002,
            0x2003, 0x2004, 0x2005, 0x2006, 0x2007, 0x2008, 0x2009, 0x200a, 0x2028, 0x2029, 0x202f,
            0x205f, 0x3000,
        ].contains(c as int),
{
    let list = seq![
        0x09int, 0x0a, 0x0b, 0x0c, 0x0d, 0x20, 0x85, 0xa0, 0x1680, 0x2000, 0x2001, 0x2002, 0x2003,
        0x2004, 0x2005, 0x2006, 0x2007, 0x2008, 0x2009, 0x200a, 0x2028, 0x2029, 0x202f, 0x205f,
        0x3000,
    ];
    assert(list[0] == 0x09 && list[1] == 0x0a && list[2] == 0x0b && list[3] == 0x0c && list[4]
        == 0x0d && list[5] == 0x20 && list[6] == 0x85 && list[7] == 0xa0 && list[8] == 0x1680
        && list[9] == 0x2000 && list[10] == 0x2001 && list[11] == 0x2002 && list[12] == 0x2003
        && list[13] == 0x2004 && list[14] == 0x2005 && list[15] == 0x2006 && list[16] == 0x2007
        && list[17] == 0x2008 && list[18] == 0x2009 && list[19] == 0x200a && list[20] == 0x2028
        && list[21] == 0x2029 && list[22] == 0x202f && list[23] == 0x205f && list[24] == 0x3000);
}

/// Trimming takes away from both ends, as much as it may.
proof fn lemma_trimmed(s: Seq<char>, strip: spec_fn(char) -> bool) -> (ends: (int, int))
    ensures
        0 <= ends.0 <= ends.1 <= s.len(),
        trimmed(s, strip) == s.subrange(ends.0, ends.1),
        forall|k: int| 0 <= k < ends.0 || ends.1 <= k < s.len() ==> strip(#[trigger] s[k]),
        ends.0 < ends.1 ==> !strip(s[ends.0]) && !strip(s[ends.1 - 1]),
    decreases s.len(),
{
    if s.len() > 0 && strip(s.first()) {
        let rest = s.drop_first();
        let (i, j) = lemma_trimmed(rest, strip);
        assert(rest.subrange(i, j) =~= s.subrange(i + 1, j + 1));
        assert forall|k: int| 0 <= k < i + 1 || j + 1 <= k < s.len() implies strip(
            #[trigger] s[k],
        ) by {
            if k > 0 {
                assert(s[k] == rest[k - 1]);
            }
        }
        (i + 1, j + 1)
    } else if s.len() > 0 && strip(s.last()) {
        let rest = s.drop_last();
        let (i, j) = lemma_trimmed(rest, strip);
        assert(rest.subrange(i, j) =~= s.subrange(i, j));
        assert forall|k: int| 0 <= k < i || j <= k < s.len() implies strip(#[trigger] s[k]) by {
            if k < rest.len() {
                assert(s[k] == rest[k]);
            }
        }
        (i, j)
    } else {
        assert(s.subrange(0, s.len() as int) =~= s);
        (0, s.len() as int)
    }
}

/// Trimming takes off what was put around.
pub proof fn lemma_trimmed_back(
    before: Seq<char>,
    name: Seq<char>,
    after: Seq<char>,
    strip: spec_fn(char) -> bool,
)
    requires
        forall|i: int| 0 <= i < before.len() ==> strip(#[trigger] before[i]),
        forall|i: int| 0 <= i < after.len() ==> strip(#[trigger] after[i]),
        name.len() > 0 ==> !strip(name.first()) && !strip(name.last()),
    ensures
        trimmed(before + name + after, strip) == name,
{
    let s = before + name + after;
    let (i, j) = lemma_trimmed(s, strip);
    let a = before.len() as int;
    let b = a + name.len();
    if name.len() == 0 {
        assert forall|k: int| 0 <= k < s.len() implies strip(#[trigger] s[k]) by {
            if k < a {
                assert(s[k] == before[k]);
            } else {
                assert(s[k] == after[k - b]);
            }
        }
        assert(trimmed(s, strip) =~= name);
    } else {
        assert(s[a] == name.first() && s[b - 1] == name.last());
        assert(i <= a && b <= j);
        if i < a {
            assert(s[i] == before[i]);
        }
        if j > b {
            assert(s[j - 1] == after[j - 1 - b]);
        }
        assert(s.subrange(a, b) =~= name);
    }
}

/// Text without the white space around it: a stretch of the text with white space, and
/// nothing but it, on both sides, that neither starts nor ends with any.
pub proof fn law_trimmed_space(s: Seq<char>)
    ensures
        exists|i: int, j: int|
            0 <= i <= j <= s.len() && trimmed_space(s) == #[trigger] s.subrange(i, j) && (forall|
                k: int,
            |
                0 <= k < i || j <= k < s.len() ==> is_white_space(#[trigger] s[k])) && (i < j
                ==> !is_white_space(s[i]) && !is_white_space(s[j - 1])),
{
    let strip = |c: char| is_white_space(c);
    let (i, j) = lemma_trimmed(s, strip);
    assert(trimmed_space(s) == s.subrange(i, j));
    assert forall|k: int| 0 <= k < i || j <= k < s.len() implies is_white_space(
        #[trigger] s[k],
    ) by {
        assert(strip(s[k]));
    }
}

/// Text without the NUL characters around it.
pub proof fn law_trimmed_nul(s: Seq<char>)
    ensures
        exists|i: int, j: int|
            0 <= i <= j <= s.len() && trimmed_nul(s) == #[trigger] s.subrange(i, j) && (forall|
                k: int,
            |
                0 <= k < i || j <= k < s.len() ==> #[trigger] s[k] == '\0') && (i < j ==> s[i]
                != '\0' && s[j - 1] != '\0'),
{
    let strip = |c: char| c == '\0';
    let (i, j) = lemma_trimmed(s, strip);
    assert(trimmed_nul(s) == s.subrange(i, j));
    assert forall|k: int| 0 <= k < i || j <= k < s.len() implies #[trigger] s[k] == '\0' by {
        assert(strip(s[k]));
    }
}

/// The number that decimal digits stand for.
pub open spec fn number_of(digits: Seq<char>) -> int
    decreases digits.len(),
{
    if digits.len() == 0 {
        0
    } else {
        number_of(digits.drop_last()) * 10 + (digits.last() as int - '0' as int)
    }
}

/// A number in decimal reads as that number. It is made of digits, without a leading zero.
pub proof fn law_decimal(n: nat)
    ensures
        number_of(decimal(n)) == n,
        decimal(n).len() > 0,
        forall|i: int| 0 <= i < decimal(n).len() ==> '0' <= #[trigger] decimal(n)[i] <= '9',
        decimal(n).len() > 1 ==> decimal(n)[0] != '0',
    decreases n,
{
    reveal_with_fuel(number_of, 2);
    if n < 10 {
        assert(decimal(n).drop_last() =~= Seq::<char>::empty());
    } else {
        let head = decimal(n / 10);
        law_decimal(n / 10);
        assert(decimal(n).drop_last() =~= head);
        assert(decimal(n)[0] == head[0]);
        if head.len() == 1 {
            assert(head.drop_last() =~= Seq::<char>::empty());
            assert(number_of(head) == head[0] as int - '0' as int);
        }
        assert forall|i: int| 0 <= i < decimal(n).len() implies '0' <= #[trigger] decimal(n)[i]
            <= '9' by {
            if i < head.len() {
                assert(decimal(n)[i] == head[i]);
            }
        }
    }
}

/// Joining puts the separator between neighbours, and nowhere else.
pub proof fn law_joined(parts: Seq<Seq<char>>, last: Seq<char>, sep: Seq<char>)
    ensures
        joined(Seq::empty(), sep) == Seq::<char>::empty(),
        joined(seq![last], sep) == last,
        parts.len() > 0 ==> joined(parts.push(last), sep) == joined(parts, sep) + sep + last,
{
    if parts.len() > 0 {
        assert(parts.push(last).drop_last() =~= parts);
    }
}

/// Where code units decode, they encode the text that they decode to: nothing but the
/// UTF-16 form of a text decodes to it, and an unpaired surrogate decodes to nothing.
pub proof fn law_utf16_decodes_only_its_own(units: Seq<u16>)
    ensures
        utf16_decoded(units) matches Some(text) ==> utf16_encoded(text) == units,
    decreases units.len(),
{
    if units.len() == 0 {
    } else if units[0] < 0xd800 || units[0] > 0xdfff {
        law_utf16_decodes_only_its_own(units.skip(1));
        match utf16_decoded(units.skip(1)) {
            Some(rest) => {
                let text = seq![units[0] as char] + rest;
                assert(text.drop_first() =~= rest);
                assert(utf16_encoded(text) =~= seq![units[0]] + units.skip(1));
                assert(seq![units[0]] + units.skip(1) =~= units);
            },
            None => {},
        }
    } else if units[0] < 0xdc00 && units.len() >= 2 && 0xdc00 <= units[1] <= 0xdfff {
        law_utf16_decodes_only_its_own(units.skip(2));
        match utf16_decoded(units.skip(2)) {
            Some(rest) => {
                let scalar = 0x1_0000 + (units[0] - 0xd800) * 0x400 + (units[1] - 0xdc00);
                let text = seq![scalar as char] + rest;
                assert(text[0] as int == scalar);
                assert(text.drop_first() =~= rest);
                assert(utf16_encoded(text) =~= seq![units[0], units[1]] + units.skip(2));
                assert(seq![units[0], units[1]] + units.skip(2) =~= units);
            },
            None => {},
        }
    }
}

/// A character below 0x10000 is one code unit of the same value; any other is a pair: a high
/// surrogate with the upper ten bits of what exceeds 0x10000, and a low one with the rest.
pub proof fn law_utf16_code_units(c: char)
    ensures
        (c as int) < 0x1_0000 ==> utf16_encoded(seq![c]).len() == 1 && utf16_encoded(seq![c])[0]
            == c as int,
        (c as int) >= 0x1_0000 ==> {
            let pair = utf16_encoded(seq![c]);
            &&& pair.len() == 2
            &&& 0xd800 <= pair[0] <= 0xdbff && 0xdc00 <= pair[1] <= 0xdfff
            &&& (pair[0] - 0xd800) * 1_024 + (pair[1] - 0xdc00) + 65_536 == c as int
        },
{
    reveal_with_fuel(utf16_encoded, 2);
    assert(seq![c].drop_first() =~= Seq::<char>::empty());
    lemma_scalar(c);
}

/// A character is at most 0x10ffff.
proof fn lemma_scalar(c: char)
    ensures
        0 <= c as int <= 0x10_ffff,
{
}

} // verus!
