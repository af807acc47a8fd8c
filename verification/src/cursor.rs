use vstd::prelude::*;

verus! {

/// The value of the two bytes at `i` in `s`, read little-endian.
pub open spec fn le16_at(s: Seq<u8>, i: int) -> int {
    s[i] + 0x100 * s[i + 1]
}

/// The value of the four bytes at `i` in `s`, read little-endian.
pub open spec fn le32_at(s: Seq<u8>, i: int) -> int {
    s[i] + 0x100 * s[i + 1] + 0x1_0000 * s[i + 2] + 0x100_0000 * s[i + 3]
}

/// A consuming reader over a byte buffer. Reads advance a front
/// position, so the visible remainder only ever shrinks; the bytes
/// themselves are never changed.
pub struct ByteCursor {
    buf: Vec<u8>,
    pos: usize,
}

impl ByteCursor {
    /// The bytes not yet consumed.
    pub closed spec fn remaining(self) -> Seq<u8> {
        self.buf@.skip(self.pos as int)
    }

    pub closed spec fn wf(self) -> bool {
        self.pos <= self.buf@.len()
    }

    pub fn new(buf: Vec<u8>) -> (c: Self)
        ensures
            c.wf(),
            c.remaining() == buf@,
    {
        let c = ByteCursor { buf, pos: 0 };
        proof {
            assert(c.remaining() =~= c.buf@);
        }
        c
    }

    /// How many bytes are left.
    pub fn len(&self) -> (n: usize)
        requires
            self.wf(),
        ensures
            n == self.remaining().len(),
    {
        self.buf.len() - self.pos
    }

    /// Reads one byte and advances past it.
    pub fn take_byte(&mut self) -> (b: u8)
        requires
            old(self).wf(),
            old(self).remaining().len() >= 1,
        ensures
            final(self).wf(),
            b == old(self).remaining()[0],
            final(self).remaining() == old(self).remaining().skip(1),
    {
        proof {
            vstd::std_specs::vec::axiom_spec_len(&self.buf);
        }
        let b = self.buf[self.pos];
        self.pos = self.pos + 1;
        proof {
            assert(self.remaining() =~= old(self).remaining().skip(1));
        }
        b
    }

    /// Reads a little-endian 16-bit integer and advances past it.
    pub fn read_u16(&mut self) -> (x: u16)
        requires
            old(self).wf(),
            old(self).remaining().len() >= 2,
        ensures
            final(self).wf(),
            x == le16_at(old(self).remaining(), 0),
            final(self).remaining() == old(self).remaining().skip(2),
    {
        proof {
            vstd::std_specs::vec::axiom_spec_len(&self.buf);
        }
        let b0 = self.buf[self.pos];
        let b1 = self.buf[self.pos + 1];
        self.pos = self.pos + 2;
        proof {
            assert(self.remaining() =~= old(self).remaining().skip(2));
        }
        b0 as u16 + 0x100 * (b1 as u16)
    }

    /// Reads a little-endian 32-bit integer and advances past it.
    pub fn read_u32(&mut self) -> (x: u32)
        requires
            old(self).wf(),
            old(self).remaining().len() >= 4,
        ensures
            final(self).wf(),
            x == le32_at(old(self).remaining(), 0),
            final(self).remaining() == old(self).remaining().skip(4),
    {
        proof {
            vstd::std_specs::vec::axiom_spec_len(&self.buf);
        }
        let b0 = self.buf[self.pos];
        let b1 = self.buf[self.pos + 1];
        let b2 = self.buf[self.pos + 2];
        let b3 = self.buf[self.pos + 3];
        self.pos = self.pos + 4;
        proof {
            assert(self.remaining() =~= old(self).remaining().skip(4));
        }
        b0 as u32 + 0x100 * (b1 as u32) + 0x1_0000 * (b2 as u32) + 0x100_0000 * (b3 as u32)
    }

    /// Takes the first `n` remaining bytes as an owned buffer and
    /// advances past them.
    #[verifier::loop_isolation(false)]
    pub fn take_fixed(&mut self, n: usize) -> (out: Vec<u8>)
        requires
            old(self).wf(),
            n <= old(self).remaining().len(),
        ensures
            final(self).wf(),
            out@ == old(self).remaining().take(n as int),
            final(self).remaining() == old(self).remaining().skip(n as int),
    {
        proof {
            vstd::std_specs::vec::axiom_spec_len(&self.buf);
        }
        let mut out: Vec<u8> = Vec::new();
        let mut k: usize = 0;
        while k < n
            invariant
                k <= n,
                out@ == old(self).remaining().take(k as int),
                self == old(self),
            decreases n - k,
        {
            out.push(self.buf[self.pos + k]);
            k = k + 1;
            proof {
                assert(out@ =~= old(self).remaining().take(k as int));
            }
        }
        self.pos = self.pos + n;
        proof {
            assert(self.remaining() =~= old(self).remaining().skip(n as int));
        }
        out
    }
}

} // verus!
