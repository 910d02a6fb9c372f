//! A buffered byte writer: text accumulates in a fixed buffer and moves
//! into the sink in large pieces, so a host sink that is expensive per
//! call is paid per buffer instead.

use crate::list::List;
use crate::split::copy_range;
use vstd::prelude::*;

verus! {

pub struct BufWriter {
    writer: Vec<u8>,
    buffer: List<u8, 8192>,
}

impl BufWriter {
    /// Everything handed to the writer so far: what reached the sink plus
    /// what still sits in the buffer.
    pub closed spec fn written(&self) -> Seq<u8> {
        self.writer@ + self.buffer@
    }

    /// What still sits in the buffer, not yet moved to the sink.
    pub closed spec fn buffered(&self) -> Seq<u8> {
        self.buffer@
    }

    pub closed spec fn wf(&self) -> bool {
        self.buffer.wf()
    }

    pub fn new() -> (r: BufWriter)
        ensures
            r.wf(),
            r.written() == Seq::<u8>::empty(),
    {
        let r = BufWriter { writer: Vec::new(), buffer: List::new() };
        proof {
            assert(r.written() =~= Seq::<u8>::empty());
        }
        r
    }

    /// Starts from a sink already holding bytes.
    pub fn with_writer(writer: Vec<u8>) -> (r: BufWriter)
        ensures
            r.wf(),
            r.written() == writer@,
    {
        let r = BufWriter { writer, buffer: List::new() };
        proof {
            assert(r.written() =~= r.writer@);
        }
        r
    }

    /// Moves the buffered bytes into the sink.
    pub fn flush(&mut self)
        requires
            old(self).wf(),
        ensures
            final(self).wf(),
            final(self).written() == old(self).written(),
            final(self).buffered() == Seq::<u8>::empty(),
    {
        let n = self.buffer.len();
        let ghost w0 = self.writer@;
        let ghost b0 = self.buffer@;
        let mut i: usize = 0;
        while i < n
            invariant
                n == b0.len(),
                i <= n,
                self.buffer@ == b0,
                self.buffer.wf(),
                self.writer@ == w0 + b0.subrange(0, i as int),
            decreases n - i,
        {
            let b = *match self.buffer.get(i) {
                Ok(b) => b,
                Err(u) => {
                    proof {
                        assert(false);
                    }
                    return ;
                },
            };
            self.writer.push(b);
            proof {
                assert(self.writer@ =~= w0 + b0.subrange(0, i + 1));
            }
            i = i + 1;
        }
        self.buffer.clear();
        proof {
            assert(b0.subrange(0, b0.len() as int) =~= b0);
            assert(self.written() =~= w0 + b0);
        }
    }

    /// Appends a whole byte string, flushing the buffer to the sink each
    /// time it fills.
    pub fn write_bytes(&mut self, s: &Vec<u8>)
        requires
            old(self).wf(),
        ensures
            final(self).wf(),
            final(self).written() == old(self).written() + s@,
    {
        let ghost w0 = old(self).written();
        let n = s.len();
        let mut cursor: usize = 0;
        proof {
            assert(w0 + s@.subrange(0, 0) =~= w0);
        }
        while cursor < n
            invariant
                n == s@.len(),
                cursor <= n,
                self.wf(),
                self.written() == w0 + s@.subrange(0, cursor as int),
            decreases n - cursor,
        {
            let mut space = 8192 - self.buffer.len();
            if space == 0 {
                self.flush();
                space = 8192;
            }
            let k = if space < n - cursor {
                space
            } else {
                n - cursor
            };
            let chunk = copy_range(s, cursor, cursor + k);
            let ghost before = self.written();
            let r = self.buffer.write_bytes(&chunk);
            proof {
                assert(r is Ok);
                assert(self.written() =~= before + chunk@);
                assert(w0 + s@.subrange(0, cursor as int) + s@.subrange(
                    cursor as int,
                    cursor + k,
                ) =~= w0 + s@.subrange(0, cursor + k));
            }
            cursor = cursor + k;
        }
        proof {
            assert(s@.subrange(0, n as int) =~= s@);
        }
    }

    /// Flushes and hands the sink back.
    pub fn into_writer(self) -> (r: Vec<u8>)
        requires
            self.wf(),
        ensures
            r@ == self.written(),
    {
        let mut this = self;
        this.flush();
        proof {
            assert(this.writer@ =~= this.writer@ + this.buffer@);
        }
        let BufWriter { writer, buffer } = this;
        writer
    }
}

} // verus!
