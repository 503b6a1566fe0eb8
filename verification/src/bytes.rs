use vstd::prelude::*;

verus! {

/// Big-endian value of a byte sequence, most significant byte first.
pub open spec fn be_val(b: Seq<u8>) -> nat
    decreases b.len(),
{
    if b.len() == 0 {
        0
    } else {
        256 * be_val(b.drop_last()) + (b.last() as nat)
    }
}

/// 256 raised to the power n.
pub open spec fn pow256(n: nat) -> nat
    decreases n,
{
    if n == 0 {
        1
    } else {
        256 * pow256((n - 1) as nat)
    }
}

pub proof fn lemma_be_val_bound(b: Seq<u8>)
    ensures
        be_val(b) < pow256(b.len() as nat),
    decreases b.len(),
{
    if b.len() > 0 {
        lemma_be_val_bound(b.drop_last());
    }
}

pub proof fn lemma_pow256_vals()
    ensures
        pow256(1) == 0x100,
        pow256(2) == 0x10000,
        pow256(4) == 0x100000000,
        pow256(16) == 0x100000000000000000000000000000000,
{
    reveal_with_fuel(pow256, 17);
}

pub proof fn lemma_pow256_increases(m: nat, n: nat)
    requires
        m <= n,
    ensures
        pow256(m) <= pow256(n),
    decreases n,
{
    if m < n && n > 0 {
        lemma_pow256_increases(m, (n - 1) as nat);
    }
}

/// Concatenation shifts the leading bytes by 256 to the power of the tail's length.
pub proof fn lemma_be_val_append(a: Seq<u8>, b: Seq<u8>)
    ensures
        be_val(a + b) == be_val(a) * pow256(b.len() as nat) + be_val(b),
    decreases b.len(),
{
    if b.len() == 0 {
        assert(a + b =~= a);
        assert(pow256(b.len() as nat) == 1);
        assert(be_val(b) == 0);
        assert(be_val(a) * 1nat == be_val(a)) by (nonlinear_arith);
    } else {
        assert((a + b).drop_last() =~= a + b.drop_last());
        lemma_be_val_append(a, b.drop_last());
        let x = be_val(a);
        let p1 = pow256((b.len() - 1) as nat);
        assert(be_val(a + b) == 256 * (x * p1 + be_val(b.drop_last())) + ((a + b).last() as nat));
        assert(256 * (x * p1 + be_val(b.drop_last())) == 256 * (x * p1) + 256 * be_val(
            b.drop_last(),
        )) by (nonlinear_arith);
        assert(256 * (x * p1) == x * (256 * p1)) by (nonlinear_arith);
        assert(pow256(b.len() as nat) == 256 * p1);
        assert((a + b).last() == b.last());
    }
}

/// A reading position over an owned, bounded byte buffer.
///
/// Decoding a message body never touches bytes outside the buffer the
/// framer handed over; every read either yields exactly the requested
/// bytes or fails without moving the position.
pub struct Cursor {
    pub(crate) buf: Vec<u8>,
    pub(crate) pos: usize,
}

impl Cursor {
    /// The bytes this cursor ranges over.
    pub closed spec fn data(&self) -> Seq<u8> {
        self.buf@
    }

    /// The current reading position.
    pub closed spec fn pos(&self) -> int {
        self.pos as int
    }

    pub open spec fn wf(&self) -> bool {
        0 <= self.pos() <= self.data().len()
    }

    pub open spec fn remaining_spec(&self) -> int {
        self.data().len() - self.pos()
    }

    pub fn new(buf: Vec<u8>) -> (c: Cursor)
        ensures
            c.wf(),
            c.data() == buf@,
            c.pos() == 0,
    {
        Cursor { buf, pos: 0 }
    }

    pub fn position(&self) -> (r: usize)
        ensures
            r as int == self.pos(),
    {
        self.pos
    }

    pub fn remaining(&self) -> (r: usize)
        requires
            self.wf(),
        ensures
            r as int == self.remaining_spec(),
    {
        self.buf.len() - self.pos
    }

    /// Read `n` bytes as one big-endian integer.
    pub fn read_be(&mut self, n: usize) -> (r: Option<u128>)
        requires
            old(self).wf(),
            n <= 16,
        ensures
            final(self).wf(),
            final(self).data() == old(self).data(),
            old(self).pos() + n <= old(self).data().len() ==> {
                &&& r == Some(
                    be_val(old(self).data().subrange(old(self).pos(), old(self).pos() + n)) as u128,
                )
                &&& final(self).pos() == old(self).pos() + n
            },
            old(self).pos() + n > old(self).data().len() ==> r is None && *final(self) == *old(
                self,
            ),
    {
        if n > self.buf.len() - self.pos {
            return None;
        }
        let ghost data = self.buf@;
        let ghost p = self.pos as int;
        let mut acc: u128 = 0;
        let mut i: usize = 0;
        proof {
            assert(data.subrange(p, p) =~= Seq::<u8>::empty());
        }
        while i < n
            invariant
                0 <= p,
                i <= n,
                n <= 16,
                self.buf@ == data,
                self.pos == p + i,
                p + n <= data.len(),
                data.len() <= usize::MAX,
                acc == be_val(data.subrange(p, p + i)),
                acc < pow256(i as nat),
            decreases n - i,
        {
            let b = self.buf[self.pos];
            proof {
                let s1 = data.subrange(p, p + i + 1);
                assert(s1.drop_last() =~= data.subrange(p, p + i));
                assert(s1.last() == data[p + i]);
                assert(pow256((i + 1) as nat) == 256 * pow256(i as nat));
                lemma_pow256_increases((i + 1) as nat, 16);
                lemma_pow256_vals();
                assert(256 * acc + b < pow256((i + 1) as nat));
            }
            acc = acc * 256 + (b as u128);
            self.pos = self.pos + 1;
            i += 1;
        }
        Some(acc)
    }

    pub fn read_u8(&mut self) -> (r: Option<u8>)
        requires
            old(self).wf(),
        ensures
            final(self).wf(),
            final(self).data() == old(self).data(),
            old(self).pos() < old(self).data().len() ==> r == Some(
                old(self).data()[old(self).pos()],
            ) && final(self).pos() == old(self).pos() + 1,
            old(self).pos() >= old(self).data().len() ==> r is None && *final(self) == *old(self),
    {
        if self.pos < self.buf.len() {
            let b = self.buf[self.pos];
            self.pos = self.pos + 1;
            Some(b)
        } else {
            None
        }
    }

    pub fn read_u16_be(&mut self) -> (r: Option<u16>)
        requires
            old(self).wf(),
        ensures
            final(self).wf(),
            final(self).data() == old(self).data(),
            old(self).pos() + 2 <= old(self).data().len() ==> {
                &&& r == Some(
                    be_val(old(self).data().subrange(old(self).pos(), old(self).pos() + 2)) as u16,
                )
                &&& final(self).pos() == old(self).pos() + 2
            },
            old(self).pos() + 2 > old(self).data().len() ==> r is None && *final(self) == *old(
                self,
            ),
    {
        proof {
            lemma_be_val_bound(old(self).data().subrange(old(self).pos(), old(self).pos() + 2));
            lemma_pow256_vals();
        }
        match self.read_be(2) {
            Some(v) => Some(v as u16),
            None => None,
        }
    }

    pub fn read_u32_be(&mut self) -> (r: Option<u32>)
        requires
            old(self).wf(),
        ensures
            final(self).wf(),
            final(self).data() == old(self).data(),
            old(self).pos() + 4 <= old(self).data().len() ==> {
                &&& r == Some(
                    be_val(old(self).data().subrange(old(self).pos(), old(self).pos() + 4)) as u32,
                )
                &&& final(self).pos() == old(self).pos() + 4
            },
            old(self).pos() + 4 > old(self).data().len() ==> r is None && *final(self) == *old(
                self,
            ),
    {
        proof {
            lemma_be_val_bound(old(self).data().subrange(old(self).pos(), old(self).pos() + 4));
            lemma_pow256_vals();
        }
        match self.read_be(4) {
            Some(v) => Some(v as u32),
            None => None,
        }
    }

    pub fn read_u128_be(&mut self) -> (r: Option<u128>)
        requires
            old(self).wf(),
        ensures
            final(self).wf(),
            final(self).data() == old(self).data(),
            old(self).pos() + 16 <= old(self).data().len() ==> {
                &&& r == Some(
                    be_val(
                        old(self).data().subrange(old(self).pos(), old(self).pos() + 16),
                    ) as u128,
                )
                &&& final(self).pos() == old(self).pos() + 16
            },
            old(self).pos() + 16 > old(self).data().len() ==> r is None && *final(self) == *old(
                self,
            ),
    {
        self.read_be(16)
    }

    /// Borrow the underlying buffer; its contents are this cursor's
    /// data.
    pub(crate) fn buf_ref(&self) -> (r: &Vec<u8>)
        ensures
            r@ == self.data(),
    {
        &self.buf
    }

    /// Move the reading position to `p`.
    pub fn set_position(&mut self, p: usize)
        requires
            p <= old(self).data().len(),
        ensures
            final(self).wf(),
            final(self).data() == old(self).data(),
            final(self).pos() == p,
    {
        self.pos = p;
    }

    /// Read the next two bytes as a big-endian integer without moving
    /// the position.
    pub fn peek_u16_be(&self) -> (r: Option<u16>)
        requires
            self.wf(),
        ensures
            self.pos() + 2 <= self.data().len() ==> r == Some(
                be_val(self.data().subrange(self.pos(), self.pos() + 2)) as u16,
            ),
            self.pos() + 2 > self.data().len() ==> r is None,
    {
        if self.buf.len() - self.pos < 2 {
            return None;
        }
        let b0 = self.buf[self.pos];
        let b1 = self.buf[self.pos + 1];
        proof {
            let s = self.data().subrange(self.pos(), self.pos() + 2);
            assert(s.drop_last() =~= seq![b0]);
            assert(seq![b0].drop_last() =~= Seq::<u8>::empty());
            assert(be_val(Seq::<u8>::empty()) == 0);
            assert(be_val(seq![b0]) == b0 as nat);
            assert(s.last() == b1);
            assert(be_val(s) == 256 * (b0 as nat) + (b1 as nat));
        }
        Some((b0 as u16) * 256 + (b1 as u16))
    }

    /// Read exactly `n` raw bytes into an owned buffer.
    pub fn read_bytes(&mut self, n: usize) -> (r: Option<Vec<u8>>)
        requires
            old(self).wf(),
        ensures
            final(self).wf(),
            final(self).data() == old(self).data(),
            old(self).pos() + n <= old(self).data().len() ==> {
                &&& r is Some
                &&& r->Some_0@ == old(self).data().subrange(old(self).pos(), old(self).pos() + n)
                &&& final(self).pos() == old(self).pos() + n
            },
            old(self).pos() + n > old(self).data().len() ==> r is None && *final(self) == *old(
                self,
            ),
    {
        if n > self.buf.len() - self.pos {
            return None;
        }
        let ghost data = self.buf@;
        let ghost p = self.pos as int;
        let mut out: Vec<u8> = Vec::new();
        let mut i: usize = 0;
        while i < n
            invariant
                0 <= p,
                i <= n,
                self.buf@ == data,
                self.pos == p + i,
                p + n <= data.len(),
                data.len() <= usize::MAX,
                out@ =~= data.subrange(p, p + i),
            decreases n - i,
        {
            let b = self.buf[self.pos];
            out.push(b);
            proof {
                assert(out@ =~= data.subrange(p, p + i + 1));
            }
            self.pos = self.pos + 1;
            i += 1;
        }
        Some(out)
    }
}

/// Big-endian value of `n` bytes at `pos` in the buffer.
pub fn read_be_at(buf: &Vec<u8>, pos: usize, n: usize) -> (r: u128)
    requires
        pos + n <= buf@.len(),
        n <= 16,
    ensures
        r == be_val(buf@.subrange(pos as int, pos + n)) as u128,
{
    let ghost data = buf@;
    let ghost p = pos as int;
    let blen = buf.len();
    let mut acc: u128 = 0;
    let mut i: usize = 0;
    proof {
        assert(data.subrange(p, p) =~= Seq::<u8>::empty());
    }
    while i < n
        invariant
            p == pos as int,
            i <= n,
            n <= 16,
            buf@ == data,
            p + n <= data.len(),
            data.len() == blen,
            acc == be_val(data.subrange(p, p + i)),
            acc < pow256(i as nat),
        decreases n - i,
    {
        let b = buf[pos + i];
        proof {
            let s1 = data.subrange(p, p + i + 1);
            assert(s1.drop_last() =~= data.subrange(p, p + i));
            assert(s1.last() == data[p + i]);
            assert(pow256((i + 1) as nat) == 256 * pow256(i as nat));
            lemma_pow256_increases((i + 1) as nat, 16);
            lemma_pow256_vals();
            assert(256 * acc + b < pow256((i + 1) as nat));
        }
        acc = acc * 256 + (b as u128);
        i += 1;
    }
    acc
}

/// Copy of the bytes from `from` (inclusive) to `to` (exclusive).
pub fn vec_range(buf: &Vec<u8>, from: usize, to: usize) -> (r: Vec<u8>)
    requires
        from <= to <= buf@.len(),
    ensures
        r@ == buf@.subrange(from as int, to as int),
{
    let ghost data = buf@;
    let mut out: Vec<u8> = Vec::new();
    let mut i: usize = from;
    proof {
        assert(out@ =~= data.subrange(from as int, from as int));
    }
    while i < to
        invariant
            from <= i <= to,
            buf@ == data,
            to <= data.len(),
            out@ =~= data.subrange(from as int, i as int),
        decreases to - i,
    {
        let b = buf[i];
        out.push(b);
        proof {
            assert(out@ =~= data.subrange(from as int, i + 1));
        }
        i += 1;
    }
    out
}

} // verus!
