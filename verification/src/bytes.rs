//! Byte-level building blocks: big-endian numbers, zero padding and
//! NUL-terminated fields.

use vstd::prelude::*;

verus! {

/// The four bytes of `value`, most significant first.
pub open spec fn be32(value: u32) -> Seq<u8> {
    seq![
        (value / 0x100_0000) as u8,
        (value / 0x1_0000 % 0x100) as u8,
        (value / 0x100 % 0x100) as u8,
        (value % 0x100) as u8,
    ]
}

/// The number that four big-endian bytes stand for.
pub open spec fn be32_value(bytes: Seq<u8>) -> int {
    bytes[0] * 0x100_0000 + bytes[1] * 0x1_0000 + bytes[2] * 0x100 + bytes[3]
}

/// The number that two big-endian bytes stand for.
pub open spec fn be16_value(bytes: Seq<u8>) -> int {
    bytes[0] * 0x100 + bytes[1]
}

/// A run of `n` zero bytes.
pub open spec fn zeros(n: nat) -> Seq<u8> {
    Seq::new(n, |i: int| 0u8)
}

/// At most the first `max` bytes of `name`, followed by zeros up to `width`.
pub open spec fn padded(name: Seq<u8>, max: nat, width: nat) -> Seq<u8>
    recommends
        max <= width,
{
    let kept = if name.len() <= max { name } else { name.take(max as int) };
    kept + zeros((width - kept.len()) as nat)
}

/// How many bytes come before the first zero byte (all of them if there is none).
pub open spec fn nul_offset(field: Seq<u8>) -> nat
    decreases field.len(),
{
    if field.len() == 0 || field[0] == 0 {
        0
    } else {
        1 + nul_offset(field.drop_first())
    }
}

/// The bytes before the first zero byte.
pub open spec fn until_nul(field: Seq<u8>) -> Seq<u8> {
    field.take(nul_offset(field) as int)
}

/// A big-endian number reads back as the value that was written.
pub proof fn law_be32_reads_back(value: u32)
    ensures
        be32_value(be32(value)) == value,
{
}

/// `nul_offset` is the first zero byte: none comes earlier.
pub proof fn lemma_nul_offset(field: Seq<u8>)
    ensures
        nul_offset(field) <= field.len(),
        forall|i: int| 0 <= i < nul_offset(field) ==> field[i] != 0,
        nul_offset(field) < field.len() ==> field[nul_offset(field) as int] == 0,
    decreases field.len(),
{
    if field.len() > 0 && field[0] != 0 {
        let rest = field.drop_first();
        lemma_nul_offset(rest);
        assert forall|i: int| 0 <= i < nul_offset(field) implies field[i] != 0 by {
            if i > 0 {
                assert(field[i] == rest[i - 1]);
            }
        }
    }
}

/// A position whose byte is zero, or the end, with no zero before it, is the offset.
pub proof fn lemma_nul_offset_unique(field: Seq<u8>, n: int)
    requires
        0 <= n <= field.len(),
        forall|i: int| 0 <= i < n ==> field[i] != 0,
        n < field.len() ==> field[n] == 0,
    ensures
        nul_offset(field) == n,
{
    lemma_nul_offset(field);
    let k = nul_offset(field) as int;
    if k < n {
        assert(field[k] != 0);
    }
    if n < k {
        assert(field[n] != 0);
    }
}

/// Appends a copy of `src`.
pub fn append(dst: &mut Vec<u8>, src: &[u8])
    ensures
        final(dst)@ == old(dst)@ + src@,
{
    dst.extend_from_slice(src);
    assert(dst@ =~= old(dst)@ + src@);
}

/// Appends `n` zero bytes.
pub fn append_zeros(dst: &mut Vec<u8>, n: usize)
    ensures
        final(dst)@ == old(dst)@ + zeros(n as nat),
{
    let mut i: usize = 0;
    while i < n
        invariant
            i <= n,
            dst@ == old(dst)@ + zeros(i as nat),
        decreases n - i,
    {
        dst.push(0);
        i = i + 1;
        assert(dst@ =~= old(dst)@ + zeros(i as nat));
    }
    assert(zeros(n as nat) =~= zeros(i as nat));
}

/// Appends at most `max` bytes of `name`, then zeros until `width` bytes are written.
pub fn append_padded(dst: &mut Vec<u8>, name: &[u8], max: usize, width: usize)
    requires
        max <= width,
    ensures
        final(dst)@ == old(dst)@ + padded(name@, max as nat, width as nat),
{
    let kept: usize = if name.len() <= max { name.len() } else { max };
    append(dst, &name[0..kept]);
    append_zeros(dst, width - kept);
    proof {
        let k = if name@.len() <= max { name@ } else { name@.take(max as int) };
        assert(name@.subrange(0, kept as int) =~= k);
        assert(dst@ =~= old(dst)@ + (k + zeros((width - k.len()) as nat)));
    }
}

/// Appends `value` as four big-endian bytes.
pub fn append_be32(dst: &mut Vec<u8>, value: u32)
    ensures
        final(dst)@ == old(dst)@ + be32(value),
{
    dst.push((value / 0x100_0000) as u8);
    dst.push((value / 0x1_0000 % 0x100) as u8);
    dst.push((value / 0x100 % 0x100) as u8);
    dst.push((value % 0x100) as u8);
    assert(dst@ =~= old(dst)@ + be32(value));
}

/// Reads two big-endian bytes at `at`.
pub fn read_be16(data: &[u8], at: usize) -> (value: u16)
    requires
        at + 2 <= data@.len(),
    ensures
        value == be16_value(data@.subrange(at as int, at + 2)),
{
    data[at] as u16 * 0x100 + data[at + 1] as u16
}

/// Reads four big-endian bytes at `at`.
pub fn read_be32(data: &[u8], at: usize) -> (value: u32)
    requires
        at + 4 <= data@.len(),
    ensures
        value == be32_value(data@.subrange(at as int, at + 4)),
{
    data[at] as u32 * 0x100_0000 + data[at + 1] as u32 * 0x1_0000 + data[at + 2] as u32 * 0x100
        + data[at + 3] as u32
}

/// The bytes of `field` before its first zero byte.
pub fn take_until_nul(field: &[u8]) -> (name: &[u8])
    ensures
        name@ == until_nul(field@),
{
    let mut n: usize = 0;
    while n < field.len() && field[n] != 0
        invariant
            n <= field@.len(),
            forall|i: int| 0 <= i < n ==> field@[i] != 0,
        decreases field@.len() - n,
    {
        n = n + 1;
    }
    proof {
        lemma_nul_offset_unique(field@, n as int);
        assert(field@.subrange(0, n as int) =~= until_nul(field@));
    }
    &field[0..n]
}

/// Whether `data` starts with `prefix`.
pub fn starts_with(data: &[u8], prefix: &[u8]) -> (yes: bool)
    ensures
        yes == (data@.len() >= prefix@.len() && data@.take(prefix@.len() as int) == prefix@),
{
    if data.len() < prefix.len() {
        return false;
    }
    let mut i: usize = 0;
    while i < prefix.len()
        invariant
            i <= prefix@.len() <= data@.len(),
            forall|k: int| 0 <= k < i ==> data@[k] == prefix@[k],
        decreases prefix@.len() - i,
    {
        if data[i] != prefix[i] {
            assert(data@.take(prefix@.len() as int)[i as int] != prefix@[i as int]);
            return false;
        }
        i = i + 1;
    }
    assert(data@.take(prefix@.len() as int) =~= prefix@);
    true
}

/// A copy of `src`.
pub fn copy_bytes(src: &[u8]) -> (copy: Vec<u8>)
    ensures
        copy@ == src@,
{
    let mut copy: Vec<u8> = Vec::new();
    append(&mut copy, src);
    assert(copy@ =~= src@);
    copy
}

} // verus!
