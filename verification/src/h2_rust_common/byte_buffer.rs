use vstd::prelude::*;
use vstd::slice::slice_subrange;

verus! {

/// The value of two bytes read most significant first.
pub open spec fn be_u16(b0: u8, b1: u8) -> int {
    b0 * 256 + b1
}

/// The value of four bytes read most significant first.
pub open spec fn be_u32(b0: u8, b1: u8, b2: u8, b3: u8) -> int {
    b0 * 0x100_0000 + b1 * 0x1_0000 + b2 * 0x100 + b3
}

/// The value of eight bytes read most significant first.
pub open spec fn be_u64(s: Seq<u8>) -> int
    recommends
        s.len() == 8,
{
    be_u32(s[0], s[1], s[2], s[3]) * 0x1_0000_0000 + be_u32(s[4], s[5], s[6], s[7])
}

/// The two's complement reading of an unsigned value of `bits` bits.
pub open spec fn signed_of(v: int, bits: nat) -> int {
    if v >= pow2_int((bits - 1) as nat) {
        v - pow2_int(bits)
    } else {
        v
    }
}

/// `2^n` as an integer.
pub open spec fn pow2_int(n: nat) -> int
    decreases n,
{
    if n == 0 {
        1
    } else {
        2 * pow2_int((n - 1) as nat)
    }
}

/// The four bytes of `a`, most significant first, in two's complement.
pub open spec fn i32_be_bytes(a: i32) -> Seq<u8> {
    let u = a as u32;
    seq![(u >> 24u32) as u8, (u >> 16u32) as u8, (u >> 8u32) as u8, u as u8]
}

/// A buffer of bytes with a position, a limit and a capacity, in the manner of
/// a Java `ByteBuffer`: reads and writes happen at the position, which may not
/// pass the limit, which may not pass the capacity.
pub struct ByteBuffer {
    data: Vec<u8>,
    position: usize,
    capacity: usize,
    limit: usize,
}

impl ByteBuffer {
    /// The buffer's invariant: position <= limit <= capacity == number of bytes.
    pub closed spec fn wf(&self) -> bool {
        &&& self.position <= self.limit
        &&& self.limit <= self.capacity
        &&& self.capacity == self.data@.len()
    }

    /// The bytes held by the buffer, `capacity` of them.
    pub closed spec fn bytes(&self) -> Seq<u8> {
        self.data@
    }

    /// The current position.
    pub closed spec fn pos(&self) -> int {
        self.position as int
    }

    /// The current limit.
    pub closed spec fn lim(&self) -> int {
        self.limit as int
    }

    /// The capacity.
    pub closed spec fn cap(&self) -> int {
        self.capacity as int
    }

    /// What a buffer always satisfies: position <= limit <= capacity == number of bytes.
    pub proof fn lemma_wf(&self)
        requires
            self.wf(),
        ensures
            0 <= self.pos() <= self.lim() <= self.cap(),
            self.cap() == self.bytes().len(),
    {
    }

    pub fn getCapacity(&self) -> (r: usize)
        requires
            self.wf(),
        ensures
            r == self.cap(),
    {
        self.capacity
    }

    pub fn getRemaining(&self) -> (r: usize)
        requires
            self.wf(),
        ensures
            r == self.lim() - self.pos(),
    {
        self.limit - self.position
    }

    pub fn hasRemaining(&self) -> (r: bool)
        requires
            self.wf(),
        ensures
            r == (self.lim() > self.pos()),
    {
        self.limit > self.position
    }

    pub fn getPosition(&self) -> (r: usize)
        requires
            self.wf(),
        ensures
            r == self.pos(),
    {
        self.position
    }

    pub fn getLimit(&self) -> (r: usize)
        requires
            self.wf(),
        ensures
            r == self.lim(),
    {
        self.limit
    }

    /// Moves the position; the new position may not pass the limit.
    pub fn setPosition(&mut self, newPosition: usize)
        requires
            old(self).wf(),
            newPosition <= old(self).lim(),
        ensures
            final(self).wf(),
            final(self).pos() == newPosition,
            final(self).lim() == old(self).lim(),
            final(self).cap() == old(self).cap(),
            final(self).bytes() == old(self).bytes(),
    {
        self.position = newPosition;
    }

    /// Moves the limit; it may not pass the capacity, nor fall below the position.
    pub fn setLimit(&mut self, newLimit: usize)
        requires
            old(self).wf(),
            newLimit <= old(self).cap(),
            old(self).pos() <= newLimit,
        ensures
            final(self).wf(),
            final(self).lim() == newLimit,
            final(self).pos() == old(self).pos(),
            final(self).cap() == old(self).cap(),
            final(self).bytes() == old(self).bytes(),
            0 <= final(self).pos() <= final(self).lim() <= final(self).cap(),
    {
        self.limit = newLimit;
    }

    /// Reads the byte at the position and moves past it.
    pub fn getByte(&mut self) -> (b: u8)
        requires
            old(self).wf(),
            old(self).pos() < old(self).lim(),
        ensures
            final(self).wf(),
            b == old(self).bytes()[old(self).pos()],
            final(self).pos() == old(self).pos() + 1,
            final(self).lim() == old(self).lim(),
            final(self).cap() == old(self).cap(),
            final(self).bytes() == old(self).bytes(),
    {
        let oldPosition = self.position;
        self.position = oldPosition + 1;
        self.data[oldPosition]
    }

    /// Reads the byte at the position as a signed byte and moves past it.
    pub fn getI8(&mut self) -> (b: i8)
        requires
            old(self).wf(),
            old(self).pos() < old(self).lim(),
        ensures
            final(self).wf(),
            b as int == signed_of(old(self).bytes()[old(self).pos()] as int, 8),
            final(self).pos() == old(self).pos() + 1,
            final(self).lim() == old(self).lim(),
            final(self).cap() == old(self).cap(),
            final(self).bytes() == old(self).bytes(),
    {
        let u = self.getByte();
        proof {
            reveal_with_fuel(pow2_int, 9);
            assert(u < 128 ==> u as i8 == u) by (bit_vector);
            assert(u >= 128 ==> u as i8 == u - 256) by (bit_vector);
        }
        u as i8
    }

    /// Writes a byte at the position and moves past it.
    pub fn putByte(&mut self, b: u8)
        requires
            old(self).wf(),
            old(self).pos() < old(self).lim(),
        ensures
            final(self).wf(),
            final(self).bytes() == old(self).bytes().update(old(self).pos(), b),
            final(self).pos() == old(self).pos() + 1,
            final(self).lim() == old(self).lim(),
            final(self).cap() == old(self).cap(),
    {
        let oldPosition = self.position;
        self.data.set(oldPosition, b);
        self.position = oldPosition + 1;
    }

    /// Skips two bytes, then reads the next two, most significant first: the
    /// bytes at the position plus 2 and plus 3, leaving the position 4 further.
    pub fn getU16(&mut self) -> (u: u16)
        requires
            old(self).wf(),
            old(self).pos() + 4 <= old(self).lim(),
        ensures
            final(self).wf(),
            u == be_u16(
                old(self).bytes()[old(self).pos() + 2],
                old(self).bytes()[old(self).pos() + 3],
            ),
            final(self).pos() == old(self).pos() + 4,
            final(self).lim() == old(self).lim(),
            final(self).cap() == old(self).cap(),
            final(self).bytes() == old(self).bytes(),
    {
        let p = self.getPosition();
        self.setPosition(p + 2);
        let b0 = self.getByte();
        let b1 = self.getByte();
        proof {
            assert((b0 as u16) << 8u16 | b1 as u16 == b0 * 256 + b1) by (bit_vector);
        }
        (b0 as u16) << 8u16 | b1 as u16
    }

    /// Reads two bytes at the position as a signed value, most significant first.
    pub fn getI16(&mut self) -> (v: i16)
        requires
            old(self).wf(),
            old(self).pos() + 2 <= old(self).lim(),
        ensures
            final(self).wf(),
            v as int == signed_of(
                be_u16(
                    old(self).bytes()[old(self).pos()],
                    old(self).bytes()[old(self).pos() + 1],
                ),
                16,
            ),
            final(self).pos() == old(self).pos() + 2,
            final(self).lim() == old(self).lim(),
            final(self).cap() == old(self).cap(),
            final(self).bytes() == old(self).bytes(),
    {
        let b0 = self.getByte();
        let b1 = self.getByte();
        proof {
            assert((b0 as u16) << 8u16 | b1 as u16 == b0 * 256 + b1) by (bit_vector);
        }
        let u: u16 = (b0 as u16) << 8u16 | b1 as u16;
        proof {
            reveal_with_fuel(pow2_int, 17);
            assert(u < 0x8000 ==> u as i16 == u) by (bit_vector);
            assert(u >= 0x8000 ==> u as i16 == u - 0x10000) by (bit_vector);
        }
        u as i16
    }

    /// Reads four bytes at the position as an unsigned value, most significant first.
    fn get_u32(&mut self) -> (v: u32)
        requires
            old(self).wf(),
            old(self).pos() + 4 <= old(self).lim(),
        ensures
            final(self).wf(),
            v == be_u32(
                old(self).bytes()[old(self).pos()],
                old(self).bytes()[old(self).pos() + 1],
                old(self).bytes()[old(self).pos() + 2],
                old(self).bytes()[old(self).pos() + 3],
            ),
            final(self).pos() == old(self).pos() + 4,
            final(self).lim() == old(self).lim(),
            final(self).cap() == old(self).cap(),
            final(self).bytes() == old(self).bytes(),
    {
        let b0 = self.getByte();
        let b1 = self.getByte();
        let b2 = self.getByte();
        let b3 = self.getByte();
        proof {
            assert((b0 as u32) << 24u32 | (b1 as u32) << 16u32 | (b2 as u32) << 8u32 | b3 as u32
                == b0 * 0x100_0000 + b1 * 0x1_0000 + b2 * 0x100 + b3) by (bit_vector);
        }
        (b0 as u32) << 24u32 | (b1 as u32) << 16u32 | (b2 as u32) << 8u32 | b3 as u32
    }

    /// Reads four bytes at the position as a signed value, most significant first.
    pub fn getI32(&mut self) -> (v: i32)
        requires
            old(self).wf(),
            old(self).pos() + 4 <= old(self).lim(),
        ensures
            final(self).wf(),
            v as int == signed_of(
                be_u32(
                    old(self).bytes()[old(self).pos()],
                    old(self).bytes()[old(self).pos() + 1],
                    old(self).bytes()[old(self).pos() + 2],
                    old(self).bytes()[old(self).pos() + 3],
                ),
                32,
            ),
            final(self).pos() == old(self).pos() + 4,
            final(self).lim() == old(self).lim(),
            final(self).cap() == old(self).cap(),
            final(self).bytes() == old(self).bytes(),
    {
        let u = self.get_u32();
        proof {
            reveal_with_fuel(pow2_int, 33);
            assert(u < 0x8000_0000 ==> u as i32 == u) by (bit_vector);
            assert(u >= 0x8000_0000 ==> u as i32 == u - 0x1_0000_0000) by (bit_vector);
        }
        u as i32
    }

    /// Reads eight bytes at the position as a signed value, most significant first.
    pub fn getI64(&mut self) -> (v: i64)
        requires
            old(self).wf(),
            old(self).pos() + 8 <= old(self).lim(),
        ensures
            final(self).wf(),
            v as int == signed_of(
                be_u64(old(self).bytes().subrange(old(self).pos(), old(self).pos() + 8)),
                64,
            ),
            final(self).pos() == old(self).pos() + 8,
            final(self).lim() == old(self).lim(),
            final(self).cap() == old(self).cap(),
            final(self).bytes() == old(self).bytes(),
    {
        let hi = self.get_u32();
        let lo = self.get_u32();
        let u: u64 = (hi as u64) << 32u64 | lo as u64;
        proof {
            assert((hi as u64) << 32u64 | lo as u64 == hi * 0x1_0000_0000 + lo) by (bit_vector);
            reveal_with_fuel(pow2_int, 65);
            assert(u < 0x8000_0000_0000_0000 ==> u as i64 == u) by (bit_vector);
            assert(u >= 0x8000_0000_0000_0000 ==> u as i64 == u - 0x1_0000_0000_0000_0000)
                by (bit_vector);
        }
        u as i64
    }

    /// Writes `u` as two bytes at the position, most significant first.
    pub fn putU16(&mut self, u: u16)
        requires
            old(self).wf(),
            old(self).pos() + 2 <= old(self).lim(),
        ensures
            final(self).wf(),
            final(self).bytes() == old(self).bytes().update(old(self).pos(), (u >> 8u16) as u8).update(
                old(self).pos() + 1,
                u as u8,
            ),
            final(self).pos() == old(self).pos() + 2,
            final(self).lim() == old(self).lim(),
            final(self).cap() == old(self).cap(),
    {
        self.putByte((u >> 8u16) as u8);
        self.putByte(u as u8);
    }

    /// Writes `a` as four bytes at the position, most significant first.
    pub fn putI32(&mut self, a: i32)
        requires
            old(self).wf(),
            old(self).pos() + 4 <= old(self).lim(),
        ensures
            final(self).wf(),
            final(self).bytes() == old(self).bytes().subrange(0, old(self).pos()) + i32_be_bytes(a)
                + old(self).bytes().subrange(old(self).pos() + 4, old(self).cap()),
            final(self).pos() == old(self).pos() + 4,
            final(self).lim() == old(self).lim(),
            final(self).cap() == old(self).cap(),
    {
        let u = a as u32;
        self.putByte((u >> 24u32) as u8);
        self.putByte((u >> 16u32) as u8);
        self.putByte((u >> 8u32) as u8);
        self.putByte(u as u8);
        proof {
            assert(self.bytes() =~= old(self).bytes().subrange(0, old(self).pos()) + i32_be_bytes(a)
                + old(self).bytes().subrange(old(self).pos() + 4, old(self).cap()));
        }
    }

    /// Writes all of `slice` at the position.
    pub fn putSlice(&mut self, slice: &[u8])
        requires
            old(self).wf(),
            slice@.len() <= old(self).lim() - old(self).pos(),
        ensures
            final(self).wf(),
            final(self).bytes() == old(self).bytes().subrange(0, old(self).pos()) + slice@
                + old(self).bytes().subrange(old(self).pos() + slice@.len(), old(self).cap()),
            final(self).pos() == old(self).pos() + slice@.len(),
            final(self).lim() == old(self).lim(),
            final(self).cap() == old(self).cap(),
    {
        self.putSlice_(slice, 0, slice.len());
        proof {
            assert(slice@.subrange(0, slice@.len() as int) =~= slice@);
        }
    }

    /// Writes `length` bytes of `slice`, from `offset` on, at the position.
    pub fn putSlice_(&mut self, slice: &[u8], offset: usize, length: usize)
        requires
            old(self).wf(),
            offset + length <= slice@.len(),
            length <= old(self).lim() - old(self).pos(),
        ensures
            final(self).wf(),
            final(self).bytes() == old(self).bytes().subrange(0, old(self).pos()) + slice@.subrange(
                offset as int,
                offset + length,
            ) + old(self).bytes().subrange(old(self).pos() + length, old(self).cap()),
            final(self).pos() == old(self).pos() + length,
            final(self).lim() == old(self).lim(),
            final(self).cap() == old(self).cap(),
    {
        let ghost start = self.position as int;
        let ghost old_bytes = self.data@;
        let slen = slice.len();
        let mut d: usize = 0;
        while d < length
            invariant
                self.wf(),
                0 <= start,
                0 <= d <= length,
                offset + length <= slice@.len(),
                slen == slice@.len(),
                start + length <= self.lim(),
                self.pos() == start + d,
                self.lim() == old(self).lim(),
                self.cap() == old(self).cap(),
                self.bytes().len() == old_bytes.len(),
                forall|i: int| 0 <= i < start ==> self.bytes()[i] == old_bytes[i],
                forall|i: int| start <= i < start + d ==> self.bytes()[i] == slice@[offset + (i - start)],
                forall|i: int| start + d <= i < old_bytes.len() ==> self.bytes()[i] == old_bytes[i],
            decreases length - d,
        {
            proof {
                self.lemma_wf();
            }
            let ghost prev = self.bytes();
            let v = slice[offset + d];
            self.putByte(v);
            proof {
                assert(self.bytes() == prev.update(start + d, v));
                assert forall|i: int| start <= i < start + d + 1 implies self.bytes()[i] == slice@[offset
                    + (i - start)] by {
                    if i < start + d {
                        assert(self.bytes()[i] == prev[i]);
                    }
                }
            }
            d = d + 1;
        }
        proof {
            self.lemma_wf();
            assert(self.bytes() =~= old_bytes.subrange(0, start) + slice@.subrange(
                offset as int,
                offset + length,
            ) + old_bytes.subrange(start + length, old_bytes.len() as int));
        }
    }

    /// Fills `dest` with the bytes at the position and moves past them.
    pub fn getSlice(&mut self, dest: &mut [u8])
        requires
            old(self).wf(),
            old(dest)@.len() <= old(self).lim() - old(self).pos(),
        ensures
            final(self).wf(),
            final(dest)@ == old(self).bytes().subrange(
                old(self).pos(),
                old(self).pos() + old(dest)@.len(),
            ),
            final(self).pos() == old(self).pos() + old(dest)@.len(),
            final(self).lim() == old(self).lim(),
            final(self).cap() == old(self).cap(),
            final(self).bytes() == old(self).bytes(),
    {
        let ghost start = self.position as int;
        let n = dest.len();
        let mut a: usize = 0;
        while a < n
            invariant
                self.wf(),
                0 <= start,
                0 <= a <= n,
                n == dest@.len(),
                n == old(dest)@.len(),
                start + n <= self.lim(),
                self.pos() == start + a,
                self.lim() == old(self).lim(),
                self.cap() == old(self).cap(),
                self.bytes() == old(self).bytes(),
                forall|i: int| 0 <= i < a ==> dest@[i] == old(self).bytes()[start + i],
            decreases n - a,
        {
            let b = self.getByte();
            dest[a] = b;
            a = a + 1;
        }
        proof {
            assert(dest@ =~= old(self).bytes().subrange(start, start + n));
        }
    }

    /// Copies the remaining bytes of `src` into this buffer; both move past them.
    pub fn putByteBuffer(&mut self, src: &mut ByteBuffer)
        requires
            old(self).wf(),
            old(src).wf(),
            old(src).lim() - old(src).pos() <= old(self).lim() - old(self).pos(),
        ensures
            final(self).wf(),
            final(src).wf(),
            ({
                let n = old(src).lim() - old(src).pos();
                &&& final(self).bytes() == old(self).bytes().subrange(0, old(self).pos())
                    + old(src).bytes().subrange(old(src).pos(), old(src).lim())
                    + old(self).bytes().subrange(old(self).pos() + n, old(self).cap())
                &&& final(self).pos() == old(self).pos() + n
                &&& final(src).pos() == old(src).lim()
            }),
            final(self).lim() == old(self).lim(),
            final(self).cap() == old(self).cap(),
            final(src).lim() == old(src).lim(),
            final(src).cap() == old(src).cap(),
            final(src).bytes() == old(src).bytes(),
    {
        let ghost start = self.position as int;
        let ghost sstart = src.position as int;
        let ghost old_bytes = self.data@;
        let ghost n = src.limit - src.position;
        loop
            invariant
                self.wf(),
                src.wf(),
                0 <= start,
                0 <= sstart,
                0 <= src.pos() - sstart <= n,
                sstart + n == src.lim(),
                start + n <= self.lim(),
                self.pos() - start == src.pos() - sstart,
                self.pos() >= start,
                self.lim() == old(self).lim(),
                self.cap() == old(self).cap(),
                src.lim() == old(src).lim(),
                src.cap() == old(src).cap(),
                src.bytes() == old(src).bytes(),
                src.pos() <= src.lim(),
                self.bytes().len() == old_bytes.len(),
                forall|i: int| 0 <= i < start ==> self.bytes()[i] == old_bytes[i],
                forall|i: int|
                    start <= i < self.pos() ==> self.bytes()[i] == src.bytes()[sstart + (i - start)],
                forall|i: int| self.pos() <= i < old_bytes.len() ==> self.bytes()[i] == old_bytes[i],
            ensures
                self.wf(),
                src.wf(),
                src.pos() == src.lim(),
                self.pos() == start + n,
                self.lim() == old(self).lim(),
                self.cap() == old(self).cap(),
                src.lim() == old(src).lim(),
                src.cap() == old(src).cap(),
                src.bytes() == old(src).bytes(),
                self.bytes().len() == old_bytes.len(),
                forall|i: int| 0 <= i < start ==> self.bytes()[i] == old_bytes[i],
                forall|i: int|
                    start <= i < self.pos() ==> self.bytes()[i] == src.bytes()[sstart + (i - start)],
                forall|i: int| self.pos() <= i < old_bytes.len() ==> self.bytes()[i] == old_bytes[i],
            decreases src.lim() - src.pos(),
        {
            if !(src.hasRemaining() && self.hasRemaining()) {
                break;
            }
            proof {
                self.lemma_wf();
            }
            let ghost prev = self.bytes();
            let b = src.getByte();
            self.putByte(b);
            proof {
                assert forall|i: int| start <= i < self.pos() implies self.bytes()[i]
                    == src.bytes()[sstart + (i - start)] by {
                    if i < self.pos() - 1 {
                        assert(self.bytes()[i] == prev[i]);
                    }
                }
            }
        }
        proof {
            self.lemma_wf();
            assert(self.bytes() =~= old_bytes.subrange(0, start) + old(src).bytes().subrange(
                sstart,
                sstart + n,
            ) + old_bytes.subrange(start + n, old_bytes.len() as int));
        }
    }

    /// All the bytes of the buffer, whatever the position and limit.
    pub fn getInternalSlice(&self) -> (s: &[u8])
        requires
            self.wf(),
        ensures
            s@ == self.bytes(),
    {
        self.data.as_slice()
    }

    /// Position back to zero, limit back to the capacity.
    pub fn clear(&mut self)
        requires
            old(self).wf(),
        ensures
            final(self).wf(),
            final(self).pos() == 0,
            final(self).lim() == old(self).cap(),
            final(self).cap() == old(self).cap(),
            final(self).bytes() == old(self).bytes(),
    {
        self.position = 0;
        self.limit = self.capacity;
    }

    /// Position back to zero, keeping the limit.
    pub fn rewind(&mut self)
        requires
            old(self).wf(),
        ensures
            final(self).wf(),
            final(self).pos() == 0,
            final(self).lim() == old(self).lim(),
            final(self).cap() == old(self).cap(),
            final(self).bytes() == old(self).bytes(),
    {
        self.position = 0;
    }

    /// The limit becomes the position and the position becomes zero, so that
    /// what was written can be read.
    pub fn flip(&mut self)
        requires
            old(self).wf(),
        ensures
            final(self).wf(),
            final(self).pos() == 0,
            final(self).lim() == old(self).pos(),
            final(self).cap() == old(self).cap(),
            final(self).bytes() == old(self).bytes(),
    {
        let p = self.position;
        self.setLimit(p);
        self.position = 0;
    }

    /// The bytes from the position up to the limit.
    pub fn extract(&self) -> (s: &[u8])
        requires
            self.wf(),
        ensures
            s@ == self.bytes().subrange(self.pos() as int, self.lim() as int),
    {
        slice_subrange(self.data.as_slice(), self.position, self.limit)
    }

    /// The `len` bytes from `position` on, whatever the buffer's own position.
    pub fn extractWithPosLen(&self, position: usize, len: usize) -> (s: &[u8])
        requires
            self.wf(),
            position + len <= self.cap(),
        ensures
            s@ == self.bytes().subrange(position as int, position + len),
    {
        slice_subrange(self.data.as_slice(), position, position + len)
    }

    /// Moves the position `count` bytes on.
    pub fn skip(&mut self, count: usize)
        requires
            old(self).wf(),
            old(self).pos() + count <= old(self).lim(),
        ensures
            final(self).wf(),
            final(self).pos() == old(self).pos() + count,
            final(self).lim() == old(self).lim(),
            final(self).cap() == old(self).cap(),
            final(self).bytes() == old(self).bytes(),
    {
        let p = self.position + count;
        self.setPosition(p);
    }
}

/// A buffer of `size` zero bytes, positioned at zero, limited at its capacity.
pub fn allocate(size: usize) -> (b: ByteBuffer)
    ensures
        b.wf(),
        b.bytes() == Seq::new(size as nat, |i: int| 0u8),
        b.pos() == 0,
        b.lim() == size,
        b.cap() == size,
{
    let data: Vec<u8> = vec![0u8; size];
    proof {
        assert(data@ =~= Seq::new(size as nat, |i: int| 0u8));
    }
    wrapVec(data)
}

/// A buffer with a copy of `slice`, positioned after the copied bytes.
pub fn wrapSlice(slice: &[u8]) -> (b: ByteBuffer)
    ensures
        b.wf(),
        b.bytes() == slice@,
        b.pos() == slice@.len(),
        b.lim() == slice@.len(),
        b.cap() == slice@.len(),
{
    let mut byteBuffer = allocate(slice.len());
    byteBuffer.putSlice(slice);
    proof {
        assert(byteBuffer.bytes() =~= slice@);
    }
    byteBuffer
}

/// A buffer over the bytes of `vec`, positioned at zero, limited at its length.
pub fn wrapVec(vec: Vec<u8>) -> (b: ByteBuffer)
    ensures
        b.wf(),
        b.bytes() == vec@,
        b.pos() == 0,
        b.lim() == vec@.len(),
        b.cap() == vec@.len(),
{
    let n = vec.len();
    ByteBuffer { data: vec, position: 0, capacity: n, limit: n }
}


/// What `putU16` writes at a position, `getU16` reads back from two bytes
/// before it (it skips two bytes before it reads).
pub proof fn law_u16_write_read(bytes: Seq<u8>, p: int, u: u16)
    requires
        0 <= p,
        p + 2 <= bytes.len(),
    ensures
        ({
            let w = bytes.update(p, (u >> 8u16) as u8).update(p + 1, u as u8);
            be_u16(w[p], w[p + 1]) == u
        }),
{
    let w = bytes.update(p, (u >> 8u16) as u8).update(p + 1, u as u8);
    assert(w[p] == (u >> 8u16) as u8);
    assert(w[p + 1] == u as u8);
    assert(((u >> 8u16) as u8) * 256 + (u as u8) == u) by (bit_vector);
}

/// What `putI32` writes at a position, `getI32` reads back from there.
pub proof fn law_i32_write_read(bytes: Seq<u8>, p: int, a: i32)
    requires
        0 <= p,
        p + 4 <= bytes.len(),
    ensures
        ({
            let w = bytes.subrange(0, p) + i32_be_bytes(a) + bytes.subrange(p + 4, bytes.len() as int);
            signed_of(be_u32(w[p], w[p + 1], w[p + 2], w[p + 3]), 32) == a
        }),
{
    let w = bytes.subrange(0, p) + i32_be_bytes(a) + bytes.subrange(p + 4, bytes.len() as int);
    let u = a as u32;
    assert(w[p] == (u >> 24u32) as u8);
    assert(w[p + 1] == (u >> 16u32) as u8);
    assert(w[p + 2] == (u >> 8u32) as u8);
    assert(w[p + 3] == u as u8);
    assert(((u >> 24u32) as u8) * 0x100_0000 + ((u >> 16u32) as u8) * 0x1_0000 + ((u >> 8u32) as u8) * 0x100
        + (u as u8) == u) by (bit_vector);
    reveal_with_fuel(pow2_int, 33);
    assert(u < 0x8000_0000 ==> a == u) by (bit_vector)
        requires
            u == a as u32,
    ;
    assert(u >= 0x8000_0000 ==> a == u - 0x1_0000_0000) by (bit_vector)
        requires
            u == a as u32,
    ;
}

} // verus!
