//! The Modbus CRC-16 checksum and the byte encodings shared by all frames.
use vstd::prelude::*;

verus! {

/// One bit step of the reflected CRC-16 with polynomial 0xA001.
pub open spec fn crc_shift(c: u16) -> u16 {
    if c & 1 != 0 {
        (c >> 1u16) ^ 0xa001u16
    } else {
        c >> 1u16
    }
}

/// `n` bit steps applied to `c`.
pub open spec fn crc_shifts(c: u16, n: nat) -> u16
    decreases n,
{
    if n == 0 {
        c
    } else {
        crc_shifts(crc_shift(c), (n - 1) as nat)
    }
}

/// The accumulator after folding one byte into `c`.
pub open spec fn crc_step(c: u16, b: u8) -> u16 {
    crc_shifts(c ^ (b as u16), 8)
}

/// The accumulator after folding all of `s` into `init`.
pub open spec fn crc_from(init: u16, s: Seq<u8>) -> u16
    decreases s.len(),
{
    if s.len() == 0 {
        init
    } else {
        crc_step(crc_from(init, s.drop_last()), s.last())
    }
}

/// The Modbus CRC-16 of `s`: initial value 0xFFFF, no final XOR.
pub open spec fn crc_of(s: Seq<u8>) -> u16 {
    crc_from(0xffff, s)
}

/// Calculate CRC for Modbus RTU
pub fn crc(data: &[u8]) -> (r: u16)
    ensures
        r == crc_of(data@),
{
    let mut crc: u16 = 0xffff;
    let mut i: usize = 0;
    while i < data.len()
        invariant
            i <= data@.len(),
            crc == crc_from(0xffff, data@.subrange(0, i as int)),
        decreases data@.len() - i,
    {
        let byte = data[i];
        crc ^= byte as u16;
        let ghost start = crc;
        let mut k: u32 = 0;
        while k < 8
            invariant
                k <= 8,
                crc_shifts(start, 8) == crc_shifts(crc, (8 - k) as nat),
            decreases 8 - k,
        {
            if (crc & 0x0001) != 0 {
                crc >>= 1;
                crc ^= 0xa001;
            } else {
                crc >>= 1;
            }
            k += 1;
        }
        assert(data@.subrange(0, i + 1).drop_last() =~= data@.subrange(0, i as int));
        i += 1;
    }
    assert(data@.subrange(0, data@.len() as int) =~= data@);
    crc
}

/// `v` as two bytes, most significant first.
pub open spec fn be16(v: u16) -> Seq<u8> {
    seq![(v >> 8u16) as u8, (v & 0xffu16) as u8]
}

/// `v` as two bytes, least significant first.
pub open spec fn le16(v: u16) -> Seq<u8> {
    seq![(v & 0xffu16) as u8, (v >> 8u16) as u8]
}

/// The big-endian value of the two bytes of `s` at `i`.
pub open spec fn be16_at(s: Seq<u8>, i: int) -> u16 {
    ((s[i] as u16) << 8u16) | (s[i + 1] as u16)
}

/// The little-endian value of the two bytes of `s` at `i`.
pub open spec fn le16_at(s: Seq<u8>, i: int) -> u16 {
    ((s[i + 1] as u16) << 8u16) | (s[i] as u16)
}

/// A list of registers on the wire: two bytes each, most significant first.
pub open spec fn regs_be(regs: Seq<u16>) -> Seq<u8>
    decreases regs.len(),
{
    if regs.len() == 0 {
        Seq::empty()
    } else {
        regs_be(regs.drop_last()) + be16(regs.last())
    }
}

/// A frame whose trailing two bytes hold, least significant first, the
/// checksum of all the bytes before them.
pub open spec fn crc_ok(frame: Seq<u8>) -> bool {
    &&& frame.len() >= 2
    &&& le16_at(frame, frame.len() - 2) == crc_of(frame.subrange(0, frame.len() - 2))
}

pub proof fn lemma_be16_round_trip(v: u16, a: u8, b: u8)
    ensures
        be16_at(be16(v), 0) == v,
        be16(be16_at(seq![a, b], 0)) == seq![a, b],
        le16_at(le16(v), 0) == v,
        le16(le16_at(seq![a, b], 0)) == seq![a, b],
{
    assert(((((v >> 8u16) as u8) as u16) << 8u16) | (((v & 0xffu16) as u8) as u16) == v)
        by (bit_vector);
    assert((((((a as u16) << 8u16) | (b as u16)) >> 8u16) as u8) == a) by (bit_vector);
    assert((((((a as u16) << 8u16) | (b as u16)) & 0xffu16) as u8) == b) by (bit_vector);
    assert((((((b as u16) << 8u16) | (a as u16)) >> 8u16) as u8) == b) by (bit_vector);
    assert((((((b as u16) << 8u16) | (a as u16)) & 0xffu16) as u8) == a) by (bit_vector);
    assert(be16(be16_at(seq![a, b], 0)) =~= seq![a, b]);
    assert(le16(le16_at(seq![a, b], 0)) =~= seq![a, b]);
}

pub proof fn lemma_regs_be_len(regs: Seq<u16>)
    ensures
        regs_be(regs).len() == 2 * regs.len(),
    decreases regs.len(),
{
    if regs.len() > 0 {
        lemma_regs_be_len(regs.drop_last());
    }
}

/// A frame made of `body` and then `c` is checksummed exactly when `c` is the
/// checksum of `body`.
pub proof fn lemma_crc_ok_frame(body: Seq<u8>, c: u16)
    ensures
        crc_ok(body + le16(c)) <==> c == crc_of(body),
{
    let f = body + le16(c);
    assert(f.subrange(0, f.len() - 2) =~= body);
    assert(f.subrange(f.len() - 2, f.len() as int) =~= le16(c));
    lemma_be16_round_trip(c, 0, 0);
    assert(le16_at(f, f.len() - 2) == le16_at(le16(c), 0));
}

/// Appends `v` to `out`, most significant byte first.
pub fn push_be16(out: &mut Vec<u8>, v: u16)
    ensures
        final(out)@ == old(out)@ + be16(v),
{
    out.push((v >> 8) as u8);
    out.push((v & 0xff) as u8);
    assert(final(out)@ =~= old(out)@ + be16(v));
}

/// Appends `v` to `out`, least significant byte first.
pub fn push_le16(out: &mut Vec<u8>, v: u16)
    ensures
        final(out)@ == old(out)@ + le16(v),
{
    out.push((v & 0xff) as u8);
    out.push((v >> 8) as u8);
    assert(final(out)@ =~= old(out)@ + le16(v));
}

/// Reads the big-endian value of the two bytes at `i`.
pub fn read_be16(b: &[u8], i: usize) -> (r: u16)
    requires
        i + 1 < b@.len(),
    ensures
        r == be16_at(b@, i as int),
{
    ((b[i] as u16) << 8) | (b[i + 1] as u16)
}

/// Reads the little-endian value of the two bytes at `i`.
pub fn read_le16(b: &[u8], i: usize) -> (r: u16)
    requires
        i + 1 < b@.len(),
    ensures
        r == le16_at(b@, i as int),
{
    let lo = b[i] as u16;
    ((b[i + 1] as u16) << 8) | lo
}

/// Appends each register of `regs` to `out`, most significant byte first.
pub fn push_regs<const N: usize>(out: &mut Vec<u8>, regs: &[u16; N])
    ensures
        final(out)@ == old(out)@ + regs_be(regs@),
{
    let ghost start = out@;
    let mut i: usize = 0;
    while i < N
        invariant
            i <= N,
            regs@.len() == N,
            out@ == start + regs_be(regs@.subrange(0, i as int)),
        decreases N - i,
    {
        push_be16(out, regs[i]);
        proof {
            let s = regs@.subrange(0, i + 1);
            assert(s.drop_last() =~= regs@.subrange(0, i as int));
            assert(out@ =~= start + regs_be(s));
        }
        i += 1;
    }
    assert(regs@.subrange(0, N as int) =~= regs@);
}

/// Reads `N` big-endian registers from `b`, starting at `at`.
pub fn read_regs<const N: usize>(b: &[u8], at: usize) -> (r: [u16; N])
    requires
        at + 2 * N <= b@.len(),
    ensures
        regs_be(r@) == b@.subrange(at as int, at + 2 * N),
{
    let len = b.len();
    let mut regs: [u16; N] = [0u16; N];
    let mut i: usize = 0;
    while i < N
        invariant
            i <= N,
            len == b@.len(),
            regs@.len() == N,
            at + 2 * N <= b@.len(),
            regs_be(regs@.subrange(0, i as int)) == b@.subrange(at as int, at + 2 * i),
        decreases N - i,
    {
        let ghost before = regs@;
        let v = read_be16(b, at + 2 * i);
        regs[i] = v;
        proof {
            let j = at + 2 * i;
            lemma_be16_round_trip(0, b@[j], b@[j + 1]);
            let s = regs@.subrange(0, i + 1);
            assert(s.drop_last() =~= before.subrange(0, i as int));
            assert(b@.subrange(at as int, j + 2) =~= b@.subrange(at as int, j as int) + seq![b@[j], b@[j + 1]]);
        }
        i += 1;
    }
    assert(regs@.subrange(0, N as int) =~= regs@);
    regs
}

/// Different values have different big-endian and little-endian encodings.
pub proof fn lemma_16_injective(a: u16, b: u16)
    ensures
        be16(a) == be16(b) ==> a == b,
        le16(a) == le16(b) ==> a == b,
{
    lemma_be16_round_trip(a, 0, 0);
    lemma_be16_round_trip(b, 0, 0);
    assert(be16(a) == be16(b) ==> be16_at(be16(a), 0) == be16_at(be16(b), 0));
    assert(le16(a) == le16(b) ==> le16_at(le16(a), 0) == le16_at(le16(b), 0));
}

/// Register lists of one length with the same encoding are equal.
pub proof fn lemma_regs_be_injective(a: Seq<u16>, b: Seq<u16>)
    requires
        a.len() == b.len(),
        regs_be(a) == regs_be(b),
    ensures
        a == b,
    decreases a.len(),
{
    if a.len() > 0 {
        let n = 2 * a.len() - 2;
        lemma_regs_be_len(a.drop_last());
        lemma_regs_be_len(b.drop_last());
        assert(regs_be(a).subrange(0, n) =~= regs_be(a.drop_last()));
        assert(regs_be(b).subrange(0, n) =~= regs_be(b.drop_last()));
        assert(regs_be(a).subrange(n, n + 2) =~= be16(a.last()));
        assert(regs_be(b).subrange(n, n + 2) =~= be16(b.last()));
        lemma_regs_be_injective(a.drop_last(), b.drop_last());
        lemma_16_injective(a.last(), b.last());
        assert(a =~= a.drop_last().push(a.last()));
        assert(b =~= b.drop_last().push(b.last()));
    }
}

proof fn lemma_crc_shift_injective(a: u16, b: u16)
    ensures
        crc_shift(a) == crc_shift(b) ==> a == b,
{
    if a & 1 != 0 && b & 1 != 0 {
        assert((a & 1 != 0 && b & 1 != 0 && (a >> 1u16) ^ 0xa001u16 == (b >> 1u16) ^ 0xa001u16)
            ==> a == b) by (bit_vector);
    } else if a & 1 != 0 {
        assert(((a >> 1u16) ^ 0xa001u16) != (b >> 1u16)) by (bit_vector);
    } else if b & 1 != 0 {
        assert(((b >> 1u16) ^ 0xa001u16) != (a >> 1u16)) by (bit_vector);
    } else {
        assert((a & 1 == 0 && b & 1 == 0 && a >> 1u16 == b >> 1u16) ==> a == b) by (bit_vector);
    }
}

proof fn lemma_crc_shifts_injective(a: u16, b: u16, n: nat)
    ensures
        crc_shifts(a, n) == crc_shifts(b, n) ==> a == b,
    decreases n,
{
    if n > 0 {
        lemma_crc_shifts_injective(crc_shift(a), crc_shift(b), (n - 1) as nat);
        lemma_crc_shift_injective(a, b);
    }
}

proof fn lemma_crc_step_injective(c1: u16, c2: u16, b1: u8, b2: u8)
    ensures
        c1 == c2 && b1 != b2 ==> crc_step(c1, b1) != crc_step(c2, b2),
        c1 != c2 && b1 == b2 ==> crc_step(c1, b1) != crc_step(c2, b2),
{
    lemma_crc_shifts_injective(c1 ^ (b1 as u16), c2 ^ (b2 as u16), 8);
    assert(b1 != b2 ==> c1 ^ (b1 as u16) != c1 ^ (b2 as u16)) by (bit_vector);
    assert(c1 != c2 ==> c1 ^ (b1 as u16) != c2 ^ (b1 as u16)) by (bit_vector);
}

proof fn lemma_crc_from_append(init: u16, p: Seq<u8>, q: Seq<u8>)
    ensures
        crc_from(init, p + q) == crc_from(crc_from(init, p), q),
    decreases q.len(),
{
    if q.len() == 0 {
        assert(p + q =~= p);
    } else {
        lemma_crc_from_append(init, p, q.drop_last());
        assert((p + q).drop_last() =~= p + q.drop_last());
    }
}

proof fn lemma_crc_from_injective(c1: u16, c2: u16, q: Seq<u8>)
    ensures
        c1 != c2 ==> crc_from(c1, q) != crc_from(c2, q),
    decreases q.len(),
{
    if q.len() > 0 {
        lemma_crc_from_injective(c1, c2, q.drop_last());
        lemma_crc_step_injective(crc_from(c1, q.drop_last()), crc_from(c2, q.drop_last()), q.last(), q.last());
    }
}

/// Changing one byte of a sequence changes its checksum.
pub proof fn lemma_crc_detects_byte_change(s: Seq<u8>, i: int, x: u8)
    requires
        0 <= i < s.len(),
        x != s[i],
    ensures
        crc_of(s.update(i, x)) != crc_of(s),
{
    let t = s.update(i, x);
    let p = s.subrange(0, i);
    let q = s.subrange(i + 1, s.len() as int);
    assert(s =~= p.push(s[i]) + q);
    assert(t =~= p.push(x) + q);
    lemma_crc_from_append(0xffff, p.push(s[i]), q);
    lemma_crc_from_append(0xffff, p.push(x), q);
    assert(p.push(s[i]).drop_last() =~= p);
    assert(p.push(x).drop_last() =~= p);
    let c = crc_from(0xffff, p);
    lemma_crc_step_injective(c, c, s[i], x);
    lemma_crc_from_injective(crc_step(c, s[i]), crc_step(c, x), q);
}

/// In a frame whose checksum verifies, changing any single byte, whether of
/// the data or of the checksum itself, makes the checksum fail.
pub proof fn lemma_single_byte_change_detected(frame: Seq<u8>, i: int, x: u8)
    requires
        crc_ok(frame),
        0 <= i < frame.len(),
        x != frame[i],
    ensures
        !crc_ok(frame.update(i, x)),
{
    let g = frame.update(i, x);
    let n = frame.len() - 2;
    if i < n {
        assert(g.subrange(0, n) =~= frame.subrange(0, n).update(i, x));
        lemma_crc_detects_byte_change(frame.subrange(0, n), i, x);
    } else {
        assert(g.subrange(0, n) =~= frame.subrange(0, n));
        let (a1, b1, a2, b2) = (frame[n], frame[n + 1], g[n], g[n + 1]);
        assert(((b1 as u16) << 8u16) | (a1 as u16) == ((b2 as u16) << 8u16) | (a2 as u16)
            ==> a1 == a2 && b1 == b2) by (bit_vector);
    }
}

/// The checksum depends on the bytes alone: equal inputs give equal checksums.
pub proof fn lemma_crc_deterministic(a: Seq<u8>, b: Seq<u8>)
    requires
        a == b,
    ensures
        crc_of(a) == crc_of(b),
{
}

} // verus!
