//! A cursor over received bytes that fields are read from front to back.
use crate::bytes::{be_value, lemma_be_value_bound, lemma_pow256_le_u128, pow256};
use vstd::prelude::*;

verus! {

/// The bytes of a message that have not been read yet.
pub struct Reader {
    bytes: Vec<u8>,
    pos: usize,
}

impl View for Reader {
    type V = Seq<u8>;

    closed spec fn view(&self) -> Seq<u8> {
        self.bytes@.subrange(self.pos as int, self.bytes@.len() as int)
    }
}

impl Reader {
    #[verifier::type_invariant]
    spec fn position_in_bounds(&self) -> bool {
        self.pos <= self.bytes@.len()
    }

    /// A reader positioned at the first of `bytes`.
    pub fn new(bytes: Vec<u8>) -> (r: Reader)
        ensures
            r@ == bytes@,
    {
        let r = Reader { bytes, pos: 0 };
        assert(r@ =~= bytes@);
        r
    }

    /// The number of bytes left to read.
    pub fn remaining(&self) -> (n: usize)
        ensures
            n == self@.len(),
    {
        proof {
            use_type_invariant(self);
        }
        self.bytes.len() - self.pos
    }

    /// The byte `i` places ahead, without consuming anything.
    pub fn peek(&self, i: usize) -> (b: u8)
        requires
            i < self@.len(),
        ensures
            b == self@[i as int],
    {
        proof {
            use_type_invariant(self);
            assert(self@.len() == self.bytes@.len() - self.pos);
        }
        let len = self.bytes.len();
        assert(self.pos + i < len);
        self.bytes[self.pos + i]
    }

    /// Consumes `n` bytes.
    pub fn advance(&mut self, n: usize)
        requires
            n <= old(self)@.len(),
        ensures
            final(self)@ == old(self)@.skip(n as int),
    {
        proof {
            use_type_invariant(&*self);
            assert(self@.len() == self.bytes@.len() - self.pos);
        }
        let len = self.bytes.len();
        assert(self.pos + n <= len);
        self.pos = self.pos + n;
        assert(self@ =~= old(self)@.skip(n as int));
    }

    /// A copy of the `n` bytes that start `start` places ahead, without
    /// consuming anything.
    pub fn peek_bytes(&self, start: usize, n: usize) -> (r: Vec<u8>)
        requires
            start + n <= self@.len(),
        ensures
            r@ == self@.subrange(start as int, start + n),
    {
        let len = self.remaining();
        let mut out: Vec<u8> = Vec::new();
        let mut i: usize = 0;
        while i < n
            invariant
                i <= n,
                start + n <= self@.len() == len,
                out@ == self@.subrange(start as int, start + i),
            decreases n - i,
        {
            out.push(self.peek(start + i));
            i = i + 1;
            assert(out@ =~= self@.subrange(start as int, start + i));
        }
        out
    }

    /// Consumes `n` bytes and hands them out.
    pub fn take_bytes(&mut self, n: usize) -> (r: Vec<u8>)
        requires
            n <= old(self)@.len(),
        ensures
            r@ == old(self)@.take(n as int),
            final(self)@ == old(self)@.skip(n as int),
    {
        let out = self.peek_bytes(0, n);
        assert(out@ =~= self@.take(n as int));
        self.advance(n);
        out
    }

    /// Consumes all that is left and hands it out.
    pub fn take_rest(&mut self) -> (r: Vec<u8>)
        ensures
            r@ == old(self)@,
            final(self)@.len() == 0,
    {
        let n = self.remaining();
        let r = self.take_bytes(n);
        assert(r@ =~= old(self)@);
        r
    }

    /// The first `n` bytes read as a big-endian number, without consuming them.
    pub fn peek_be(&self, n: usize) -> (r: u128)
        requires
            n <= 16,
            n <= self@.len(),
        ensures
            r == be_value(self@.take(n as int)),
    {
        let mut acc: u128 = 0;
        let mut i: usize = 0;
        while i < n
            invariant
                i <= n <= 16,
                n <= self@.len(),
                acc == be_value(self@.take(i as int)),
            decreases n - i,
        {
            proof {
                lemma_be_value_bound(self@.take(i as int));
                lemma_pow256_le_u128(i as nat + 1);
                assert(self@.take(i as int + 1).drop_last() =~= self@.take(i as int));
                let p = pow256(i as nat);
                assert(pow256(i as nat + 1) == 256 * p);
                assert(acc * 256 + 255 < 256 * p) by (nonlinear_arith)
                    requires
                        acc < p,
                ;
            }
            acc = acc * 256 + self.peek(i) as u128;
            i = i + 1;
        }
        acc
    }
}

} // verus!
