use vstd::prelude::*;

verus! {

/// Bit `k` of `byte`, counted from the left: `k == 0` is the most significant bit.
pub open spec fn bit_from_left(byte: u8, k: int) -> bool {
    (byte >> ((7 - k) as u8)) & 1u8 == 1u8
}

/// The eight bits of `byte`, most significant first.
pub open spec fn bits_left_to_right(byte: u8) -> Seq<bool> {
    Seq::new(8, |k: int| bit_from_left(byte, k))
}

/// The number that a sequence of bits spells, most significant bit first.
pub open spec fn value_msb_first(bits: Seq<bool>) -> nat
    decreases bits.len(),
{
    if bits.len() == 0 {
        0
    } else {
        2 * value_msb_first(bits.drop_last()) + if bits.last() { 1nat } else { 0nat }
    }
}

/// The bits of a byte as `bool`s, from left to right, or from right to left
/// after `rev`.
pub struct Bits {
    byte: u8,
    index: u8,
    reversed: bool,
}

impl Bits {
    /// The bits that `next` still hands out, in the order it hands them out.
    pub closed spec fn remaining(&self) -> Seq<bool> {
        if self.index >= 8 {
            Seq::empty()
        } else if self.reversed {
            Seq::new((8 - self.index) as nat, |k: int| bit_from_left(self.byte, 7 - (self.index + k)))
        } else {
            Seq::new((8 - self.index) as nat, |k: int| bit_from_left(self.byte, self.index + k))
        }
    }

    /// The bits that `next_back` still hands out, in the order it hands them out.
    pub closed spec fn remaining_back(&self) -> Seq<bool> {
        (Bits { byte: self.byte, index: self.index, reversed: !self.reversed }).remaining()
    }

    pub fn new(byte: u8) -> (r: Self)
        ensures
            r.remaining() == bits_left_to_right(byte),
            r.remaining_back() == bits_left_to_right(byte).reverse(),
    {
        let r = Bits { byte, index: 0, reversed: false };
        assert(r.remaining() =~= bits_left_to_right(byte));
        assert(r.remaining_back() =~= bits_left_to_right(byte).reverse());
        r
    }

    /// Turns the direction around: `next` now takes the bits from the right.
    pub fn rev(self) -> (r: Self)
        ensures
            r.remaining() == self.remaining_back(),
            r.remaining_back() == self.remaining(),
    {
        Bits { byte: self.byte, index: self.index, reversed: !self.reversed }
    }

    fn take_bit(&mut self, from_left: bool) -> (r: Option<bool>)
        ensures
            old(self).index >= 8 ==> r.is_none() && *final(self) == *old(self),
            old(self).index < 8 ==> r == Some(bit_from_left(
                old(self).byte,
                if from_left { old(self).index as int } else { 7 - old(self).index },
            )) && *final(self) == (Bits { index: (old(self).index + 1) as u8, ..*old(self) }),
    {
        if self.index >= 8 {
            return None;
        }
        let shift: u8 = if from_left { 7 - self.index } else { self.index };
        let bit = (self.byte >> shift) & 1;
        self.index = self.index + 1;
        Some(bit == 1)
    }

    /// The next bit in the current direction, or `None` after all eight.
    pub fn next(&mut self) -> (r: Option<bool>)
        ensures
            old(self).remaining().len() == 0 ==> r.is_none() && *final(self) == *old(self),
            old(self).remaining().len() > 0 ==> r == Some(old(self).remaining()[0])
                && final(self).remaining() == old(self).remaining().drop_first()
                && final(self).remaining_back() == old(self).remaining_back().drop_first(),
    {
        let ghost before = *self;
        let r = self.take_bit(!self.reversed);
        proof {
            if before.index < 8 {
                assert(self.remaining() =~= before.remaining().drop_first());
                assert(self.remaining_back() =~= before.remaining_back().drop_first());
            }
        }
        r
    }

    /// The next bit from the other end, or `None` after all eight.
    pub fn next_back(&mut self) -> (r: Option<bool>)
        ensures
            old(self).remaining_back().len() == 0 ==> r.is_none() && *final(self) == *old(self),
            old(self).remaining_back().len() > 0 ==> r == Some(old(self).remaining_back()[0])
                && final(self).remaining() == old(self).remaining().drop_first()
                && final(self).remaining_back() == old(self).remaining_back().drop_first(),
    {
        let ghost before = *self;
        let r = self.take_bit(self.reversed);
        proof {
            if before.index < 8 {
                assert(self.remaining() =~= before.remaining().drop_first());
                assert(self.remaining_back() =~= before.remaining_back().drop_first());
            }
        }
        r
    }
}

proof fn lemma_shift_step(b: u8, s: u8)
    requires
        s < 8,
    ensures
        (b >> s) as int == 2 * (b >> ((s + 1) as u8)) as int + if (b >> s) & 1u8 == 1u8 { 1int } else { 0int },
{
    let hi = b >> ((s + 1) as u8);
    let lo = (b >> s) & 1u8;
    assert(hi < 128u8) by (bit_vector)
        requires
            s < 8u8,
            hi == b >> ((s + 1) as u8),
    ;
    assert(lo == 0u8 || lo == 1u8) by (bit_vector)
        requires
            lo == (b >> s) & 1u8,
    ;
    assert((b >> s) == ((hi << 1u8) | lo)) by (bit_vector)
        requires
            s < 8u8,
            hi == b >> ((s + 1) as u8),
            lo == (b >> s) & 1u8,
    ;
    assert((hi << 1u8) | lo == (hi << 1u8) + lo) by (bit_vector)
        requires
            lo == 0u8 || lo == 1u8,
    ;
    assert(hi << 1u8 == 2 * hi) by (bit_vector)
        requires
            hi < 128u8,
    ;
}

/// The first `j` bits of `byte` spell `byte` shifted right by `8 - j`.
proof fn lemma_prefix_value(byte: u8, j: int)
    requires
        0 <= j <= 8,
    ensures
        value_msb_first(bits_left_to_right(byte).take(j)) == (byte >> ((8 - j) as u8)) as int,
    decreases j,
{
    let bits = bits_left_to_right(byte);
    if j == 0 {
        assert(bits.take(0).len() == 0);
        assert(byte >> 8u8 == 0u8) by (bit_vector);
    } else {
        lemma_prefix_value(byte, j - 1);
        assert(bits.take(j).drop_last() =~= bits.take(j - 1));
        lemma_shift_step(byte, (8 - j) as u8);
    }
}

/// Read back most significant bit first, the eight bits of a byte spell
/// that byte.
pub proof fn lemma_bits_spell_byte(byte: u8)
    ensures
        bits_left_to_right(byte).len() == 8,
        value_msb_first(bits_left_to_right(byte)) == byte as int,
{
    lemma_prefix_value(byte, 8);
    assert(bits_left_to_right(byte).take(8) =~= bits_left_to_right(byte));
    assert(byte >> 0u8 == byte) by (bit_vector);
}

} // verus!
