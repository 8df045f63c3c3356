use vstd::prelude::*;

verus! {

/// A buffer that can be filled once, up to a fixed size. Values are appended
/// in order and can be read back by position while the buffer is being filled.
pub struct SharedBuffer<T> {
    buf: Vec<T>,
    size: usize,
}

/// Error containing the attempted pushed value. Returned only when the buffer is full.
pub struct PushError<T>(pub T);

impl<T> PushError<T> {
    /// The human readable description of the error.
    pub fn message(&self) -> (s: String)
        ensures
            s@ == push_error_text(),
    {
        String::from_str("internal buffer is full, cannot push more values")
    }
}

/// The value at `pos` among `items`, if there is one there.
pub open spec fn read_at<T>(items: Seq<T>, pos: int) -> Option<T> {
    if 0 <= pos < items.len() { Some(items[pos]) } else { None }
}

/// The values a buffer that holds up to `cap` values holds after `v` is
/// pushed onto `items`: `v` comes last when there is room, else nothing changes.
pub open spec fn pushed<T>(items: Seq<T>, cap: nat, v: T) -> Seq<T> {
    if items.len() < cap {
        items.push(v)
    } else {
        items
    }
}

/// The values held after pushing each of `vs` in turn onto `items`.
pub open spec fn pushed_all<T>(items: Seq<T>, cap: nat, vs: Seq<T>) -> Seq<T>
    decreases vs.len(),
{
    if vs.len() == 0 {
        items
    } else {
        pushed(pushed_all(items, cap, vs.drop_last()), cap, vs.last())
    }
}

/// The smaller of two lengths.
pub open spec fn min_len(a: nat, b: nat) -> nat {
    if a < b { a } else { b }
}

/// The buffer is filled once. Pushing `vs` in turn onto a new buffer of
/// capacity `cap`: exactly the first `min(|vs|, cap)` pushes succeed, the
/// `j`-th of them storing its value in slot `j`, so the fill count is
/// `min(|vs|, cap)`, never above the capacity.
pub proof fn law_fill_once<T>(cap: nat, vs: Seq<T>)
    ensures
        pushed_all(Seq::<T>::empty(), cap, vs) == vs.take(min_len(vs.len(), cap) as int),
        pushed_all(Seq::<T>::empty(), cap, vs).len() == min_len(vs.len(), cap),
        forall|j: int|
            0 <= j < vs.len() ==> ((#[trigger] pushed_all(Seq::<T>::empty(), cap, vs.take(j))).len()
                < cap <==> j < cap),
    decreases vs.len(),
{
    if vs.len() > 0 {
        let init = vs.drop_last();
        law_fill_once(cap, init);
        if init.len() < cap {
            assert(init.take(init.len() as int).push(vs.last()) =~= vs.take(vs.len() as int));
        } else {
            assert(init.take(cap as int) =~= vs.take(cap as int));
        }
        assert forall|j: int| 0 <= j < vs.len() implies ((#[trigger] pushed_all(
            Seq::<T>::empty(),
            cap,
            vs.take(j),
        )).len() < cap <==> j < cap) by {
            if j < init.len() {
                assert(vs.take(j) =~= init.take(j));
                assert(pushed_all(Seq::<T>::empty(), cap, init.take(j)).len() < cap <==> j < cap);
            } else {
                assert(vs.take(j) =~= init);
            }
        }
    }
}

/// Pushes never take anything away: after any pushes onto `items` (within
/// capacity), every value already held keeps its slot, the fill count never
/// decreases, and it never goes above the capacity.
pub proof fn law_filled_slots_stay<T>(items: Seq<T>, cap: nat, vs: Seq<T>)
    requires
        items.len() <= cap,
    ensures
        items.len() <= pushed_all(items, cap, vs).len() <= cap,
        forall|i: int| 0 <= i < items.len() ==> #[trigger] pushed_all(items, cap, vs)[i] == items[i],
    decreases vs.len(),
{
    if vs.len() > 0 {
        law_filled_slots_stay(items, cap, vs.drop_last());
    }
}

/// The text that describes a push on a full buffer.
pub open spec fn push_error_text() -> Seq<char> {
    "internal buffer is full, cannot push more values"@
}

impl<T> SharedBuffer<T> {
    #[verifier::type_invariant]
    spec fn well_formed(self) -> bool {
        self.buf.len() <= self.size
    }

    /// The values pushed so far, in the order they were pushed.
    pub closed spec fn items(self) -> Seq<T> {
        self.buf@
    }

    /// The number of values the buffer can ever hold.
    pub closed spec fn capacity(self) -> nat {
        self.size as nat
    }

    /// Creates an empty buffer that holds up to `size` values.
    pub fn new(size: usize) -> (res: Self)
        ensures
            res.items() == Seq::<T>::empty(),
            res.capacity() == size,
    {
        SharedBuffer { buf: Vec::new(), size }
    }

    /// The number of values the buffer can hold.
    pub fn buf_size(&self) -> (n: usize)
        ensures
            n == self.capacity(),
    {
        self.size
    }

    /// The number of values pushed so far.
    pub fn filled_size(&self) -> (n: usize)
        ensures
            n == self.items().len(),
            n <= self.capacity(),
    {
        proof {
            use_type_invariant(self);
        }
        self.buf.len()
    }

    /// Appends `val`, or hands it back inside a `PushError` when the buffer is full.
    pub fn push(&mut self, val: T) -> (res: Result<(), PushError<T>>)
        ensures
            final(self).capacity() == old(self).capacity(),
            final(self).items().len() <= final(self).capacity(),
            old(self).items().len() < old(self).capacity() ==> {
                &&& res is Ok
                &&& final(self).items() == old(self).items().push(val)
            },
            final(self).items() == pushed(old(self).items(), old(self).capacity(), val),
            old(self).items().len() >= old(self).capacity() ==> {
                &&& res == Err::<(), PushError<T>>(PushError(val))
                &&& final(self).items() == old(self).items()
            },
    {
        proof {
            use_type_invariant(&*self);
        }
        if self.buf.len() >= self.size {
            return Err(PushError(val));
        }
        let mut filled: Vec<T> = Vec::new();
        std::mem::swap(&mut filled, &mut self.buf);
        filled.push(val);
        self.buf = filled;
        Ok(())
    }

    /// The value at position `pos`, if it has been pushed.
    pub fn get(&self, pos: usize) -> (res: Option<&T>)
        ensures
            res matches Some(r) ==> read_at(self.items(), pos as int) == Some(*r),
            res is None <==> read_at(self.items(), pos as int) is None,
    {
        if pos < self.buf.len() {
            Some(&self.buf[pos])
        } else {
            None
        }
    }

    /// Consumes the buffer and returns the values pushed, in order.
    pub fn into_owned(self) -> (res: Vec<T>)
        ensures
            res@ == self.items(),
    {
        self.buf
    }
}

} // verus!
