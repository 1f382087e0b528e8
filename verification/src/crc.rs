//! CRC-16/MCRF4XX (the "X.25" checksum of MAVLink frames and replay records):
//! reflected polynomial 0x8408, initial value 0xFFFF, no final inversion.

use vstd::prelude::*;

verus! {

pub const CRC_INIT: u16 = 0xFFFF;

pub const CRC_POLY: u16 = 0x8408;

/// One bit of reflected polynomial division.
pub open spec fn crc_bit(c: u16) -> u16 {
    if c & 1 == 1 {
        (c >> 1) ^ CRC_POLY
    } else {
        c >> 1
    }
}

/// The checksum register after one more byte.
pub open spec fn crc_byte(c: u16, b: u8) -> u16 {
    crc_bit(crc_bit(crc_bit(crc_bit(crc_bit(crc_bit(crc_bit(crc_bit(c ^ (b as u16)))))))))
}

/// The checksum register after every byte of `s`, starting from `c`.
pub open spec fn crc_fold(c: u16, s: Seq<u8>) -> u16
    decreases s.len(),
{
    if s.len() == 0 {
        c
    } else {
        crc_byte(crc_fold(c, s.drop_last()), s.last())
    }
}

/// The checksum of a byte string.
pub open spec fn crc_of(s: Seq<u8>) -> u16 {
    crc_fold(CRC_INIT, s)
}

fn bit(c: u16) -> (r: u16)
    ensures
        r == crc_bit(c),
{
    if c & 1 == 1 {
        (c >> 1) ^ CRC_POLY
    } else {
        c >> 1
    }
}

/// Running checksum.
#[derive(Debug, Clone, Copy)]
pub struct X25Crc {
    crc: u16,
}

impl View for X25Crc {
    type V = u16;

    closed spec fn view(&self) -> u16 {
        self.crc
    }
}

impl X25Crc {
    pub fn new() -> (r: Self)
        ensures
            r@ == CRC_INIT,
    {
        X25Crc { crc: CRC_INIT }
    }

    /// Feed one byte.
    pub fn accumulate(&mut self, b: u8)
        ensures
            final(self)@ == crc_byte(old(self)@, b),
    {
        let c: u16 = self.crc ^ (b as u16);
        self.crc = bit(bit(bit(bit(bit(bit(bit(bit(c))))))));
    }

    /// Feed `bytes[from..to]`.
    pub fn accumulate_range(&mut self, bytes: &[u8], from: usize, to: usize)
        requires
            from <= to <= bytes@.len(),
        ensures
            final(self)@ == crc_fold(old(self)@, bytes@.subrange(from as int, to as int)),
    {
        let ghost start = self@;
        let mut i: usize = from;
        while i < to
            invariant
                from <= i <= to <= bytes@.len(),
                self@ == crc_fold(start, bytes@.subrange(from as int, i as int)),
            decreases to - i,
        {
            let ghost next = bytes@.subrange(from as int, i + 1);
            self.accumulate(bytes[i]);
            proof {
                assert(next.drop_last() == bytes@.subrange(from as int, i as int));
                assert(next.last() == bytes@[i as int]);
            }
            i = i + 1;
        }
    }

    /// Feed every byte of a slice.
    pub fn accumulate_slice(&mut self, bytes: &[u8])
        ensures
            final(self)@ == crc_fold(old(self)@, bytes@),
    {
        self.accumulate_range(bytes, 0, bytes.len());
        proof {
            assert(bytes@.subrange(0, bytes@.len() as int) == bytes@);
        }
    }

    /// The checksum once the message's own extra byte has been mixed in.
    pub fn finalize_with_extra(self, extra: u8) -> (r: u16)
        ensures
            r == crc_byte(self@, extra),
    {
        let mut c = self;
        c.accumulate(extra);
        c.crc
    }

    /// The register as it stands.
    pub fn value(self) -> (r: u16)
        ensures
            r == self@,
    {
        self.crc
    }
}

/// Checksum of a whole byte string.
pub fn x25_crc(bytes: &[u8]) -> (r: u16)
    ensures
        r == crc_of(bytes@),
{
    let mut c = X25Crc::new();
    c.accumulate_slice(bytes);
    c.value()
}

proof fn crc_bit_injective(a: u16, b: u16)
    requires
        crc_bit(a) == crc_bit(b),
    ensures
        a == b,
{
    assert(((if a & 1 == 1 { (a >> 1) ^ 0x8408u16 } else { a >> 1 })
        == (if b & 1 == 1 { (b >> 1) ^ 0x8408u16 } else { b >> 1 })) ==> a == b) by (bit_vector);
}

/// Two registers that a byte takes to one value were equal.
pub proof fn crc_byte_injective(a: u16, x: u8, b: u16, y: u8)
    requires
        crc_byte(a, x) == crc_byte(b, y),
    ensures
        a ^ (x as u16) == b ^ (y as u16),
        x == y ==> a == b,
        a == b ==> x == y,
{
    let a0 = a ^ (x as u16);
    let b0 = b ^ (y as u16);
    let a1 = crc_bit(a0);
    let b1 = crc_bit(b0);
    let a2 = crc_bit(a1);
    let b2 = crc_bit(b1);
    let a3 = crc_bit(a2);
    let b3 = crc_bit(b2);
    let a4 = crc_bit(a3);
    let b4 = crc_bit(b3);
    let a5 = crc_bit(a4);
    let b5 = crc_bit(b4);
    let a6 = crc_bit(a5);
    let b6 = crc_bit(b5);
    let a7 = crc_bit(a6);
    let b7 = crc_bit(b6);
    crc_bit_injective(a7, b7);
    crc_bit_injective(a6, b6);
    crc_bit_injective(a5, b5);
    crc_bit_injective(a4, b4);
    crc_bit_injective(a3, b3);
    crc_bit_injective(a2, b2);
    crc_bit_injective(a1, b1);
    crc_bit_injective(a0, b0);
    assert(a ^ (x as u16) == b ^ (y as u16) ==> (x == y ==> a == b) && (a == b ==> x == y))
        by (bit_vector);
}

/// Splitting a byte string does not change its checksum.
pub proof fn crc_fold_concat(c: u16, s: Seq<u8>, t: Seq<u8>)
    ensures
        crc_fold(c, s + t) == crc_fold(crc_fold(c, s), t),
    decreases t.len(),
{
    if t.len() == 0 {
        assert(s + t == s);
    } else {
        assert((s + t).drop_last() == s + t.drop_last());
        crc_fold_concat(c, s, t.drop_last());
    }
}

proof fn crc_fold_injective(a: u16, b: u16, s: Seq<u8>)
    requires
        crc_fold(a, s) == crc_fold(b, s),
    ensures
        a == b,
    decreases s.len(),
{
    if s.len() > 0 {
        crc_byte_injective(
            crc_fold(a, s.drop_last()),
            s.last(),
            crc_fold(b, s.drop_last()),
            s.last(),
        );
        crc_fold_injective(a, b, s.drop_last());
    }
}

/// A byte string with exactly one byte changed never keeps its checksum.
pub proof fn crc_detects_one_changed_byte(s: Seq<u8>, i: int, b: u8)
    requires
        0 <= i < s.len(),
        b != s[i],
    ensures
        crc_of(s.update(i, b)) != crc_of(s),
{
    let head = s.subrange(0, i);
    let tail = s.subrange(i + 1, s.len() as int);
    let t = s.update(i, b);
    assert(s == head.push(s[i]) + tail);
    assert(t == head.push(b) + tail);
    let c = crc_fold(CRC_INIT, head);
    assert(head.push(s[i]).drop_last() == head);
    assert(head.push(b).drop_last() == head);
    crc_fold_concat(CRC_INIT, head.push(s[i]), tail);
    crc_fold_concat(CRC_INIT, head.push(b), tail);
    if crc_of(t) == crc_of(s) {
        crc_fold_injective(crc_byte(c, b), crc_byte(c, s[i]), tail);
        crc_byte_injective(c, b, c, s[i]);
    }
}

} // verus!
