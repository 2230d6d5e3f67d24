//! A bounds-checked, seekable reader over a byte slice.

use vstd::prelude::*;

use crate::error::DecodeError;

verus! {

/// Reading one byte at `pos`: the byte and the position after it.
pub open spec fn byte_at(b: Seq<u8>, pos: int) -> Result<(u8, int), DecodeError> {
    if 0 <= pos < b.len() {
        Ok((b[pos], pos + 1))
    } else {
        Err(DecodeError::TruncatedData)
    }
}

/// Weight of the `k`-th seven-bit group of a varint: `128^k`.
pub open spec fn group_scale(k: nat) -> nat
    decreases k,
{
    if k == 0 {
        1
    } else {
        128 * group_scale((k - 1) as nat)
    }
}

/// Index of the last group a 32-bit varint may have; it holds the top four bits.
pub const LAST_GROUP: usize = 4;

/// Decoding the groups of a varint from group `k` on, starting at `pos`: the
/// value of those groups, already weighted by `group_scale`, and the position
/// after the last one. A set high bit means that another group follows; the
/// last permitted group may only carry the four bits still left of 32.
pub open spec fn varint_from(b: Seq<u8>, pos: int, k: nat) -> Result<(nat, int), DecodeError>
    decreases LAST_GROUP - k,
{
    if !(0 <= pos < b.len()) {
        Err(DecodeError::TruncatedData)
    } else {
        let x = b[pos];
        if k >= LAST_GROUP {
            if x < 16 {
                Ok(((x as nat) * group_scale(k), pos + 1))
            } else {
                Err(DecodeError::MalformedData)
            }
        } else if x < 128 {
            Ok(((x as nat) * group_scale(k), pos + 1))
        } else {
            match varint_from(b, pos + 1, k + 1) {
                Ok((v, e)) => Ok((((x - 128) as nat) * group_scale(k) + v, e)),
                Err(err) => Err(err),
            }
        }
    }
}

/// Decoding one varint at `pos`: its value and the position after it.
pub open spec fn varint_at(b: Seq<u8>, pos: int) -> Result<(nat, int), DecodeError> {
    varint_from(b, pos, 0)
}

/// The varint encoding of `x`: seven bits per byte, lowest group first, the
/// high bit set on every byte but the last.
pub open spec fn varint_encoding(x: nat) -> Seq<u8>
    decreases x,
{
    if x < 128 {
        seq![x as u8]
    } else {
        seq![(x % 128 + 128) as u8] + varint_encoding(x / 128)
    }
}

/// The varint encoding of `x`.
pub fn encode_varint(x: u32) -> (r: Vec<u8>)
    ensures
        r@ == varint_encoding(x as nat),
{
    let mut out: Vec<u8> = Vec::new();
    let mut v: u32 = x;
    while v >= 128
        invariant
            out@ + varint_encoding(v as nat) == varint_encoding(x as nat),
        decreases v,
    {
        let ghost before = out@;
        out.push((v % 128 + 128) as u8);
        assert(varint_encoding(v as nat) == seq![(v % 128 + 128) as u8] + varint_encoding(
            (v / 128) as nat,
        ));
        assert(before + varint_encoding(v as nat) =~= out@ + varint_encoding((v / 128) as nat));
        v = v / 128;
    }
    out.push(v as u8);
    assert(varint_encoding(v as nat) == seq![v as u8]);
    assert(out@ =~= varint_encoding(x as nat));
    out
}

/// `r` with `add` added to its value.
pub open spec fn offset_value(r: Result<(nat, int), DecodeError>, add: nat) -> Result<(nat, int), DecodeError> {
    match r {
        Ok((v, e)) => Ok((v + add, e)),
        Err(err) => Err(err),
    }
}

proof fn lemma_scale_bound(k: nat)
    requires
        k <= LAST_GROUP,
    ensures
        group_scale(k) <= 268435456,
        k < LAST_GROUP ==> group_scale(k) <= 2097152,
{
    lemma_group_scales();
    if k == 0 {
    } else if k == 1 {
    } else if k == 2 {
    } else if k == 3 {
    } else {
        assert(k == 4);
    }
}

proof fn lemma_group_scales()
    ensures
        group_scale(0) == 1,
        group_scale(1) == 128,
        group_scale(2) == 16384,
        group_scale(3) == 2097152,
        group_scale(4) == 268435456,
{
    reveal_with_fuel(group_scale, 5);
}

/// A reader over `data` at a position that never passes its end.
pub struct Cursor<'a> {
    data: &'a [u8],
    pos: usize,
}

impl<'a> Cursor<'a> {
    /// The bytes read.
    pub closed spec fn data(&self) -> Seq<u8> {
        self.data@
    }

    /// The position of the next byte to read.
    pub closed spec fn pos(&self) -> int {
        self.pos as int
    }

    #[verifier::type_invariant]
    spec fn inv(&self) -> bool {
        self.pos <= self.data.len()
    }

    /// A cursor at the start of `data`.
    pub fn new(data: &'a [u8]) -> (r: Cursor<'a>)
        ensures
            r.data() == data@,
            r.pos() == 0,
    {
        Cursor { data, pos: 0 }
    }

    /// A cursor over `data` at `pos`.
    pub fn at(data: &'a [u8], pos: usize) -> (r: Cursor<'a>)
        requires
            pos <= data@.len(),
        ensures
            r.data() == data@,
            r.pos() == pos,
    {
        Cursor { data, pos }
    }

    /// The position of the next byte to read.
    pub fn position(&self) -> (r: usize)
        ensures
            r == self.pos(),
            r <= self.data().len(),
    {
        proof {
            use_type_invariant(self);
        }
        self.pos
    }

    /// Moves to `pos`, which must lie within the data or at its end.
    pub fn seek(&mut self, pos: usize)
        requires
            pos <= old(self).data().len(),
        ensures
            final(self).data() == old(self).data(),
            final(self).pos() == pos,
    {
        self.pos = pos;
    }

    /// Whether at least one byte is left to read.
    pub fn remaining(&self) -> (r: bool)
        ensures
            r == (self.pos() < self.data().len()),
    {
        self.pos < self.data.len()
    }

    /// Reads one byte.
    pub fn read_byte(&mut self) -> (r: Result<u8, DecodeError>)
        ensures
            final(self).data() == old(self).data(),
            match byte_at(old(self).data(), old(self).pos()) {
                Ok((x, e)) => r == Ok::<u8, DecodeError>(x) && final(self).pos() == e,
                Err(err) => r == Err::<u8, DecodeError>(err) && final(self).pos() == old(self).pos(),
            },
    {
        proof {
            use_type_invariant(&*self);
        }
        if self.pos < self.data.len() {
            let x = self.data[self.pos];
            self.pos = self.pos + 1;
            Ok(x)
        } else {
            Err(DecodeError::TruncatedData)
        }
    }

    /// Reads one varint of at most 32 bits, lowest group first.
    pub fn read_varint(&mut self) -> (r: Result<u32, DecodeError>)
        ensures
            final(self).data() == old(self).data(),
            match varint_at(old(self).data(), old(self).pos()) {
                Ok((v, e)) => r == Ok::<u32, DecodeError>(v as u32) && v < 0x1_0000_0000
                    && final(self).pos() == e,
                Err(err) => r == Err::<u32, DecodeError>(err),
            },
    {
        proof {
            lemma_group_scales();
        }
        let ghost start = self.pos();
        let mut result: u32 = 0;
        let mut scale: u32 = 1;
        let mut k: usize = 0;
        loop
            invariant
                self.data() == old(self).data(),
                start == old(self).pos(),
                k <= LAST_GROUP,
                scale as nat == group_scale(k as nat),
                result < scale,
                varint_at(self.data(), start) == offset_value(
                    varint_from(self.data(), self.pos(), k as nat),
                    result as nat,
                ),
            decreases LAST_GROUP - k,
        {
            proof {
                lemma_scale_bound(k as nat);
            }
            let x = match self.read_byte() {
                Ok(x) => x,
                Err(err) => {
                    return Err(err);
                },
            };
            if k == LAST_GROUP {
                if x < 16 {
                    assert(x as nat * scale <= 15 * 268435456) by (nonlinear_arith)
                        requires
                            x < 16,
                            scale <= 268435456,
                    ;
                    return Ok(result + (x as u32) * scale);
                } else {
                    return Err(DecodeError::MalformedData);
                }
            }
            if x < 128 {
                assert(x as nat * scale <= 127 * 2097152) by (nonlinear_arith)
                    requires
                        x < 128,
                        scale <= 2097152,
                ;
                return Ok(result + (x as u32) * scale);
            }
            assert((x - 128) as nat * scale + scale <= 128 * scale) by (nonlinear_arith)
                requires
                    x < 256,
                    x >= 128,
            ;
            result = result + ((x - 128) as u32) * scale;
            scale = scale * 128;
            k = k + 1;
        }
    }
}

} // verus!
