use vstd::prelude::*;

verus! {

/// Where a seek is measured from, as in `std::io::SeekFrom`.
pub enum SeekFrom {
    Start(u64),
    End(i64),
    Current(i64),
}

/// The replay buffer behind a seekable view of a forward-only byte stream.
/// Every byte read from the stream is kept, so that the reader can move back
/// to any position it has already seen.
pub struct ReSeeker {
    internal_buf: Vec<u8>,
    pos: usize,
}

/// The absolute value of `x`, as `i64::abs` computes it.
pub open spec fn abs_i64(x: i64) -> int {
    if x < 0 { -x } else { x as int }
}

/// The smaller of two integers.
pub open spec fn min_int(a: int, b: int) -> int {
    if a <= b { a } else { b }
}

/// The position a seek moves to, given the current position and the number
/// of bytes kept so far.
pub open spec fn seek_target(pos: int, len: int, from: SeekFrom) -> int {
    match from {
        SeekFrom::Start(at) => min_int((at as usize) as int, len),
        SeekFrom::End(at) => if at < 0 {
            len - min_int((abs_i64(at) as usize) as int, len)
        } else {
            len
        },
        SeekFrom::Current(at) => if at < 0 {
            pos - min_int((abs_i64(at) as usize) as int, pos)
        } else {
            min_int(pos + (abs_i64(at) as usize) as int, len)
        },
    }
}

/// The bytes a read into a buffer of `n` bytes replays from the kept bytes,
/// starting at `pos`: as many as fit, up to the end of what was kept.
pub open spec fn replay(kept: Seq<u8>, pos: int, n: int) -> Seq<u8> {
    kept.subrange(pos, pos + min_int(n, kept.len() - pos))
}

/// Whether a seek can be computed without overflow: `i64::abs` overflows on `i64::MIN`.
pub open spec fn seek_ok(from: SeekFrom) -> bool {
    match from {
        SeekFrom::Start(_) => true,
        SeekFrom::End(at) => at != i64::MIN,
        SeekFrom::Current(at) => at != i64::MIN,
    }
}

impl ReSeeker {
    #[verifier::type_invariant]
    spec fn well_formed(self) -> bool {
        self.pos <= self.internal_buf.len()
    }

    /// The bytes kept so far.
    pub closed spec fn kept(self) -> Seq<u8> {
        self.internal_buf@
    }

    /// The current read position.
    pub closed spec fn position(self) -> nat {
        self.pos as nat
    }

    /// An empty replay buffer, positioned at the start.
    pub fn new() -> (res: Self)
        ensures
            res.kept() == Seq::<u8>::empty(),
            res.position() == 0,
    {
        ReSeeker { internal_buf: Vec::new(), pos: 0 }
    }

    /// The current read position.
    pub fn pos(&self) -> (p: usize)
        ensures
            p == self.position(),
            p <= self.kept().len(),
    {
        proof {
            use_type_invariant(self);
        }
        self.pos
    }

    /// First half of a read: copies kept bytes from the current position into
    /// the front of `out`. Returns how many bytes were copied and whether the
    /// read is already complete, which is the case exactly when `out` filled up
    /// while kept bytes remained; otherwise the rest of `out` must come from the stream.
    pub fn read_kept(&mut self, out: &mut Vec<u8>) -> (res: (usize, bool))
        ensures
            res.0 == min_int(old(out)@.len() as int, old(self).kept().len() - old(self).position()),
            res.1 == (old(out)@.len() < old(self).kept().len() - old(self).position()),
            final(self).kept() == old(self).kept(),
            final(self).position() == old(self).position() + res.0,
            final(out)@.len() == old(out)@.len(),
            forall|i: int|
                0 <= i < res.0 ==> final(out)@[i] == old(self).kept()[old(self).position() + i],
            forall|i: int| res.0 <= i < old(out)@.len() ==> final(out)@[i] == old(out)@[i],
            final(out)@.subrange(0, res.0 as int) == replay(
                old(self).kept(),
                old(self).position() as int,
                old(out)@.len() as int,
            ),
    {
        proof {
            use_type_invariant(&*self);
        }
        let ghost start = self.pos as int;
        let mut read: usize = 0;
        let len = self.internal_buf.len();
        while self.pos < len
            invariant
                len == self.internal_buf.len(),
                self.internal_buf@ == old(self).kept(),
                start == old(self).position(),
                self.pos == start + read,
                self.pos <= len,
                read <= out@.len(),
                out@.len() == old(out)@.len(),
                forall|i: int| 0 <= i < read ==> out@[i] == self.internal_buf@[start + i],
                forall|i: int| read <= i < out@.len() ==> out@[i] == old(out)@[i],
            decreases len - self.pos,
        {
            if read >= out.len() {
                assert(out@.subrange(0, read as int) == self.internal_buf@.subrange(
                    start,
                    start + read,
                ));
                return (read, true);
            }
            let byte = self.internal_buf[self.pos];
            out.set(read, byte);
            self.pos = self.pos + 1;
            read = read + 1;
        }
        assert(out@.subrange(0, read as int) == self.internal_buf@.subrange(start, start + read));
        (read, false)
    }

    /// Second half of a read: keeps the `got` bytes the stream returned at the
    /// front of `fresh`, moves to the end of the kept bytes, and copies those
    /// bytes into `out` from position `at` on. Bytes of `fresh` past `got` were
    /// never read and are not kept, so a later replay gives back exactly what
    /// was read.
    pub fn keep_fresh(&mut self, fresh: Vec<u8>, got: usize, out: &mut Vec<u8>, at: usize)
        requires
            got <= fresh@.len(),
            at <= old(out)@.len(),
            old(self).kept().len() + got <= usize::MAX,
        ensures
            final(self).kept() == old(self).kept() + fresh@.subrange(0, got as int),
            final(self).position() == final(self).kept().len(),
            final(out)@.len() == old(out)@.len(),
            forall|i: int| 0 <= i < at ==> final(out)@[i] == old(out)@[i],
            forall|i: int|
                at <= i < old(out)@.len() ==> final(out)@[i] == (if i - at < got {
                    fresh@[i - at]
                } else {
                    old(out)@[i]
                }),
    {
        let mut i: usize = 0;
        while i < got && i < out.len() - at
            invariant
                got <= fresh@.len(),
                at <= out@.len(),
                out@.len() == old(out)@.len(),
                i <= got,
                at + i <= out@.len(),
                forall|k: int| 0 <= k < at ==> out@[k] == old(out)@[k],
                forall|k: int| at <= k < at + i ==> out@[k] == fresh@[k - at],
                forall|k: int| at + i <= k < out@.len() ==> out@[k] == old(out)@[k],
            decreases got - i,
        {
            out.set(at + i, fresh[i]);
            i = i + 1;
        }
        self.pos = 0;
        let mut kept: Vec<u8> = Vec::new();
        std::mem::swap(&mut kept, &mut self.internal_buf);
        let ghost before = kept@;
        let mut j: usize = 0;
        while j < got
            invariant
                got <= fresh@.len(),
                j <= got,
                kept@ == before + fresh@.subrange(0, j as int),
                before.len() + got <= usize::MAX,
            decreases got - j,
        {
            kept.push(fresh[j]);
            j = j + 1;
            assert(kept@ == before + fresh@.subrange(0, j as int));
        }
        let end = kept.len();
        self.internal_buf = kept;
        self.pos = end;
    }

    /// Moves the read position within the kept bytes and returns the new position.
    pub fn seek(&mut self, from: SeekFrom) -> (res: u64)
        requires
            seek_ok(from),
        ensures
            final(self).kept() == old(self).kept(),
            final(self).position() == seek_target(
                old(self).position() as int,
                old(self).kept().len() as int,
                from,
            ),
            res == final(self).position(),
    {
        proof {
            use_type_invariant(&*self);
        }
        let len = self.internal_buf.len();
        let next: usize = match from {
            SeekFrom::Start(at) => {
                #[verifier::truncate]
                let a = at as usize;
                if a > len { len } else { a }
            },
            SeekFrom::End(at) => {
                let m: i64 = if at < 0 { -at } else { at };
                #[verifier::truncate]
                let a = m as usize;
                if at < 0 {
                    if a > len { 0 } else { len - a }
                } else {
                    len
                }
            },
            SeekFrom::Current(at) => {
                let m: i64 = if at < 0 { -at } else { at };
                #[verifier::truncate]
                let a = m as usize;
                if at < 0 {
                    if a > self.pos { 0 } else { self.pos - a }
                } else {
                    if a > len - self.pos { len } else { self.pos + a }
                }
            },
        };
        self.pos = next;
        next as u64
    }
}

} // verus!
