//! A rolling window over streamed data: a ring of power-of-two size that
//! overwrites its oldest element once it is full.

use vstd::arithmetic::power2::{
    lemma2_to64, lemma_pow2_pos, lemma_pow2_strictly_increases, lemma_pow2_unfold, pow2,
};
use vstd::arithmetic::div_mod::{lemma_mod_self_0, lemma_small_mod};
use vstd::bits::{lemma_usize_low_bits_mask_is_mod, lemma_usize_pow2_no_overflow, low_bits_mask};
use vstd::layout::unsigned_int_max_values;
use vstd::prelude::*;

verus! {

/// Whether `n` is a power of two.
pub open spec fn is_power_of_two(n: nat) -> bool {
    exists|k: nat| n == pow2(k)
}

/// The first of `p`, `2p`, `4p`, ... that is not below `n`.
pub open spec fn power_of_two_from(p: nat, n: nat) -> nat
    decreases
            (if p < n {
                n - p
            } else {
                0
            }),
{
    if p == 0 || p >= n {
        p
    } else {
        power_of_two_from(2 * p, n)
    }
}

/// The least power of two that is not below `n`; it is 1 for `n == 0`.
pub open spec fn next_power_of_two(n: nat) -> nat {
    power_of_two_from(1, n)
}

/// What a window of capacity `cap` that shows `s` shows after `v` is pushed:
/// `v` comes last, and the oldest element leaves once the window is full.
pub open spec fn push_window<T>(s: Seq<T>, cap: nat, v: T) -> Seq<T> {
    if s.len() < cap {
        s.push(v)
    } else {
        s.subrange(1, s.len() as int).push(v)
    }
}

/// What an empty window of capacity `cap` shows after the values of `vs` are
/// pushed one by one, oldest first.
pub open spec fn push_all<T>(cap: nat, vs: Seq<T>) -> Seq<T>
    decreases vs.len(),
{
    if vs.len() == 0 {
        Seq::empty()
    } else {
        push_window(push_all(cap, vs.drop_last()), cap, vs.last())
    }
}

/// The last `min(s.len(), cap)` elements of `s`, in order.
pub open spec fn last_elements<T>(s: Seq<T>, cap: nat) -> Seq<T> {
    if s.len() <= cap {
        s
    } else {
        s.subrange(s.len() - cap, s.len() as int)
    }
}

proof fn lemma_power_of_two_from(p: nat, n: nat, k: nat)
    requires
        p == pow2(k),
    ensures
        is_power_of_two(power_of_two_from(p, n)),
        power_of_two_from(p, n) >= n,
        power_of_two_from(p, n) >= p,
        p < n ==> power_of_two_from(p, n) < 2 * n,
    decreases
            (if p < n {
                n - p
            } else {
                0
            }),
{
    lemma_pow2_pos(k);
    if p >= n {
    } else {
        lemma_pow2_unfold(k + 1);
        lemma_power_of_two_from(2 * p, n, k + 1);
    }
}

/// `next_power_of_two(n)` is a power of two, it is not below `n`, and no
/// smaller power of two is: half of it is below `n`.
pub proof fn lemma_next_power_of_two(n: nat)
    ensures
        is_power_of_two(next_power_of_two(n)),
        next_power_of_two(n) >= n,
        next_power_of_two(n) >= 1,
        n >= 1 ==> next_power_of_two(n) < 2 * n,
        n <= 1 ==> next_power_of_two(n) == 1,
{
    lemma2_to64();
    lemma_power_of_two_from(1, n, 0);
}

/// Pushing the values of `vs` one by one into an empty window of capacity
/// `cap` leaves exactly the last `min(vs.len(), cap)` of them, in the order in
/// which they were pushed.
pub proof fn lemma_push_all_keeps_last<T>(cap: nat, vs: Seq<T>)
    requires
        cap >= 1,
    ensures
        push_all(cap, vs) == last_elements(vs, cap),
    decreases vs.len(),
{
    if vs.len() == 0 {
        assert(push_all(cap, vs) =~= last_elements(vs, cap));
    } else {
        let before = vs.drop_last();
        lemma_push_all_keeps_last(cap, before);
        assert(push_window(last_elements(before, cap), cap, vs.last()) =~= last_elements(
            vs,
            cap,
        ));
    }
}

/// A power of two that fits in `usize` has an exponent below `usize::BITS`.
proof fn lemma_exponent_fits(p: usize, k: nat)
    requires
        p == pow2(k),
    ensures
        k < usize::BITS,
{
    unsigned_int_max_values();
    if k >= usize::BITS {
        if k > usize::BITS {
            lemma_pow2_strictly_increases(usize::BITS as nat, k);
        }
    }
}

/// For a power of two `cap`, the mask `cap - 1` leaves a slot as it is and
/// takes `cap` itself back to slot 0.
proof fn lemma_mask_wraps(x: usize, cap: usize, k: nat)
    requires
        cap == pow2(k),
        x <= cap,
    ensures
        x & ((cap - 1) as usize) == (if x == cap {
            0
        } else {
            x as int
        }),
        cap >= 1,
{
    lemma_exponent_fits(cap, k);
    lemma_pow2_pos(k);
    lemma_usize_low_bits_mask_is_mod(x, k);
    if x == cap {
        lemma_mod_self_0(cap as int);
    } else {
        lemma_small_mod(x as nat, cap as nat);
    }
}

/// The least power of two that is not below `size`; `None` where it does not
/// fit in `usize`.
pub fn checked_next_power_of_two(size: usize) -> (r: Option<usize>)
    ensures
        r == (if next_power_of_two(size as nat) <= usize::MAX {
            Some(next_power_of_two(size as nat) as usize)
        } else {
            None
        }),
{
    let mut p: usize = 1;
    let ghost mut k: nat = 0;
    proof {
        lemma2_to64();
    }
    while p < size
        invariant
            p == pow2(k),
            power_of_two_from(p as nat, size as nat) == next_power_of_two(size as nat),
        decreases
                (if p < size {
                    size - p
                } else {
                    0
                }),
    {
        proof {
            lemma_pow2_pos(k);
            lemma_pow2_unfold(k + 1);
            lemma_power_of_two_from(2 * (p as nat), size as nat, k + 1);
        }
        if p > usize::MAX / 2 {
            return None;
        }
        proof {
            k = k + 1;
        }
        p = p * 2;
    }
    proof {
        lemma_pow2_pos(k);
    }
    Some(p)
}

/// A rolling window of fixed capacity. The capacity is a power of two, so
/// that the write position wraps with one bitwise AND.
#[derive(Debug, Clone)]
pub struct CircularBuffer<T> {
    data: Vec<T>,
    mask: usize,
    // Whether the write position has wrapped at least once.
    filled: bool,
    // The slot that the next push fills.
    pos: usize,
}

impl<T> View for CircularBuffer<T> {
    type V = Seq<T>;

    /// The elements held, oldest first.
    closed spec fn view(&self) -> Seq<T> {
        shown(self.data@, self.filled, self.pos as int)
    }
}

/// What a ring with storage `data` and write position `pos` shows, oldest
/// first: all of it from `pos` round to `pos` once it has wrapped, and the
/// slots before `pos` until then.
spec fn shown<T>(data: Seq<T>, filled: bool, pos: int) -> Seq<T> {
    if filled {
        data.subrange(pos, data.len() as int) + data.subrange(0, pos)
    } else {
        data.subrange(0, pos)
    }
}

/// The slot that lies `offset` places after slot `first` in a ring of `cap`
/// slots, for an offset of at most `cap`.
spec fn wrapped_slot(first: int, offset: int, cap: int) -> int {
    if first + offset < cap {
        first + offset
    } else {
        first + offset - cap
    }
}

/// The slot of the oldest element shown.
spec fn first_slot(filled: bool, pos: int) -> int {
    if filled {
        pos
    } else {
        0
    }
}

/// Writing `w` to the slot of the element at place `at` changes that place of
/// what is shown, and nothing else.
proof fn lemma_shown_update<T>(data: Seq<T>, filled: bool, pos: int, at: int, w: T)
    requires
        0 <= pos < data.len(),
        0 <= at < shown(data, filled, pos).len(),
    ensures
        shown(
            data.update(wrapped_slot(first_slot(filled, pos), at, data.len() as int), w),
            filled,
            pos,
        ) == shown(data, filled, pos).update(at, w),
{
    let slot = wrapped_slot(first_slot(filled, pos), at, data.len() as int);
    assert(shown(data.update(slot, w), filled, pos) =~= shown(data, filled, pos).update(at, w));
}

impl<T: Default + Clone> CircularBuffer<T> {
    /// An empty window whose capacity is `size` rounded up to a power of two.
    pub fn new(size: usize) -> (r: Self)
        requires
            next_power_of_two(size as nat) <= usize::MAX,
        ensures
            r.wf(),
            r@ == Seq::<T>::empty(),
            r.capacity() == next_power_of_two(size as nat),
    {
        let realsize = match checked_next_power_of_two(size) {
            Some(p) => p,
            None => unreached(),
        };
        let mut data: Vec<T> = Vec::new();
        let mut i: usize = 0;
        while i < realsize
            invariant
                i <= realsize,
                data@.len() == i,
            decreases realsize - i,
        {
            data.push(T::default());
            i = i + 1;
        }
        proof {
            lemma_next_power_of_two(size as nat);
            let k = choose|k: nat| realsize == pow2(k);
            lemma_exponent_fits(realsize, k);
        }
        let r = Self { data, mask: realsize - 1, filled: false, pos: 0 };
        assert(r@ =~= Seq::<T>::empty());
        r
    }
}

impl<T: Copy> CircularBuffer<T> {
    /// The elements held, oldest first.
    pub fn to_vec(&self) -> (v: Vec<T>)
        requires
            self.wf(),
        ensures
            v@ == self@,
    {
        let n = self.len();
        let mut v: Vec<T> = Vec::new();
        let mut i: usize = 0;
        while i < n
            invariant
                self.wf(),
                n == self@.len(),
                i <= n,
                v@ == self@.take(i as int),
            decreases n - i,
        {
            v.push(*self.get(i));
            proof {
                assert(self@.take(i + 1) =~= self@.take(i as int).push(self@[i as int]));
            }
            i = i + 1;
        }
        proof {
            assert(self@.take(n as int) =~= self@);
        }
        v
    }
}

impl<T> CircularBuffer<T> {
    /// The invariant of the window: the storage is a power of two long, the
    /// mask is one less, and the write position lies inside the storage.
    pub closed spec fn wf(&self) -> bool {
        &&& exists|k: nat|
            k < usize::BITS && self.data@.len() == pow2(k) && self.mask == low_bits_mask(k)
        &&& self.pos < self.data@.len()
    }

    /// The number of elements the window holds when it is full.
    pub closed spec fn capacity(&self) -> nat {
        self.data@.len()
    }

    /// A well-formed window never shows more than its capacity, which is a
    /// power of two.
    pub proof fn lemma_bounded(&self)
        requires
            self.wf(),
        ensures
            self@.len() <= self.capacity(),
            self.capacity() >= 1,
            self.capacity() <= usize::MAX,
            is_power_of_two(self.capacity()),
    {
        let k: nat = choose|k: nat|
            k < usize::BITS && self.data@.len() == pow2(k) && self.mask == low_bits_mask(k);
        lemma_usize_pow2_no_overflow(k);
    }

    /// Stores `v` as the newest element. A full window drops its oldest.
    pub fn push(&mut self, v: T)
        requires
            old(self).wf(),
        ensures
            final(self).wf(),
            final(self).capacity() == old(self).capacity(),
            final(self)@ == push_window(old(self)@, old(self).capacity(), v),
    {
        let ghost k: nat = choose|k: nat|
            k < usize::BITS && self.data@.len() == pow2(k) && self.mask == low_bits_mask(k);
        let ghost before = self.data@;
        let ghost shown = self@;
        let pos = self.pos;
        let cap = self.data.len();
        proof {
            lemma_mask_wraps((pos + 1) as usize, cap, k);
        }
        self.data.set(pos, v);
        self.pos = (pos + 1) & self.mask;
        self.filled = self.filled || self.pos == 0;
        proof {
            assert(self.data@ == before.update(pos as int, v));
            if pos + 1 < cap {
                assert(self.pos == pos + 1);
            } else {
                assert(self.pos == 0);
            }
            assert(self@ =~= push_window(shown, cap as nat, v));
        }
    }

    /// An iterator over the elements held, oldest first.
    #[inline]
    pub fn iter(&self) -> (it: Iter<'_, T>)
        requires
            self.wf(),
        ensures
            it.wf(),
            it.remaining() == self@,
    {
        Iter::new(self)
    }

    /// An iterator that hands out the elements held for writing, oldest
    /// first. What the window shows once the walk is over is what the walk
    /// shows then.
    #[inline]
    pub fn iter_mut(&mut self) -> (it: IterMut<'_, T>)
        requires
            old(self).wf(),
        ensures
            it.wf(),
            it.window() == old(self)@,
            it.remaining() == old(self)@,
            it.capacity() == old(self).capacity(),
            *final(self) == *final(it.buffer),
    {
        IterMut::new(self)
    }

    /// The number of elements held.
    #[inline]
    pub fn len(&self) -> (n: usize)
        requires
            self.wf(),
        ensures
            n == self@.len(),
    {
        if self.filled {
            self.data.len()
        } else {
            self.pos
        }
    }

    /// The newest element.
    #[inline]
    pub fn last(&self) -> (r: &T)
        requires
            self.wf(),
            self@.len() > 0,
        ensures
            *r == self@.last(),
    {
        let pos = if self.pos >= 1 {
            self.pos - 1
        } else {
            self.mask
        };
        &self.data[pos]
    }

    /// The element at place `i`, counted from the oldest.
    pub fn get(&self, i: usize) -> (r: &T)
        requires
            self.wf(),
            i < self@.len(),
        ensures
            *r == self@[i as int],
    {
        let first = self.first_pos();
        let cap = self.data.len();
        let slot = if i < cap - first {
            first + i
        } else {
            i - (cap - first)
        };
        &self.data[slot]
    }

    /// The slot of the oldest element.
    fn first_pos(&self) -> (p: usize)
        requires
            self.wf(),
        ensures
            p == (if self.filled {
                self.pos
            } else {
                0
            }),
    {
        if self.filled {
            self.pos
        } else {
            0
        }
    }
}

/// Walks a window from its oldest element to its newest.
pub struct Iter<'a, T> {
    // The slot of the next element.
    pos: usize,
    // How many elements have been handed out.
    count: usize,
    buffer: &'a CircularBuffer<T>,
}

impl<'a, T> Iter<'a, T> {
    /// The invariant of the walk: it stands inside the window, at the slot
    /// of the element that comes next.
    pub closed spec fn wf(&self) -> bool {
        &&& self.buffer.wf()
        &&& self.count <= self.buffer@.len()
        &&& self.pos < self.buffer.data@.len()
        &&& self.pos as int == wrapped_slot(
            first_slot(self.buffer.filled, self.buffer.pos as int),
            self.count as int,
            self.buffer.data@.len() as int,
        )
    }

    /// The elements that are still to come, oldest first.
    pub closed spec fn remaining(&self) -> Seq<T> {
        self.buffer@.subrange(self.count as int, self.buffer@.len() as int)
    }

    fn new(buffer: &'a CircularBuffer<T>) -> (it: Self)
        requires
            buffer.wf(),
        ensures
            it.wf(),
            it.remaining() == buffer@,
    {
        let it = Self { pos: buffer.first_pos(), count: 0, buffer };
        proof {
            assert(it.remaining() =~= buffer@);
        }
        it
    }

    /// The next element, if any is left.
    pub fn next(&mut self) -> (r: Option<&'a T>)
        requires
            old(self).wf(),
        ensures
            final(self).wf(),
            match r {
                Some(v) => old(self).remaining().len() > 0 && *v == old(self).remaining()[0]
                    && final(self).remaining() == old(self).remaining().subrange(
                    1,
                    old(self).remaining().len() as int,
                ),
                None => old(self).remaining().len() == 0 && final(self).remaining().len() == 0,
            },
    {
        if self.count == self.buffer.len() {
            return None;
        }
        let ghost k: nat = choose|k: nat|
            k < usize::BITS && self.buffer.data@.len() == pow2(k) && self.buffer.mask
                == low_bits_mask(k);
        let ghost rest = self.remaining();
        let cap = self.buffer.data.len();
        let pos = self.pos;
        proof {
            lemma_mask_wraps(pos, cap, k);
            lemma_mask_wraps((pos + 1) as usize, cap, k);
        }
        let out = &self.buffer.data[pos & self.buffer.mask];
        self.pos = (pos + 1) & self.buffer.mask;
        self.count = self.count + 1;
        proof {
            assert(self.remaining() =~= rest.subrange(1, rest.len() as int));
        }
        Some(out)
    }
}

/// Walks a window from its oldest element to its newest and lets the caller
/// overwrite each element in place.
pub struct IterMut<'a, T> {
    /// The slot of the next element.
    pub pos: usize,
    /// How many elements have been handed out.
    pub count: usize,
    /// The window that is walked.
    pub buffer: &'a mut CircularBuffer<T>,
}

impl<'a, T> IterMut<'a, T> {
    /// The invariant of the walk: the window is well formed, and the walk
    /// stands inside it.
    pub open spec fn wf(&self) -> bool {
        self.buffer.wf() && self.in_step()
    }

    /// The walk stands inside the window, at the slot of the element that
    /// comes next.
    pub closed spec fn in_step(&self) -> bool {
        &&& self.count <= self.buffer@.len()
        &&& self.pos < self.buffer.data@.len()
        &&& self.pos as int == wrapped_slot(
            first_slot(self.buffer.filled, self.buffer.pos as int),
            self.count as int,
            self.buffer.data@.len() as int,
        )
    }

    /// What the window shows now, oldest first.
    pub open spec fn window(&self) -> Seq<T> {
        self.buffer@
    }

    /// The capacity of the window.
    pub open spec fn capacity(&self) -> nat {
        self.buffer.capacity()
    }

    /// The elements that are still to come, oldest first.
    pub open spec fn remaining(&self) -> Seq<T> {
        self.buffer@.subrange(self.count as int, self.buffer@.len() as int)
    }

    fn new(buffer: &'a mut CircularBuffer<T>) -> (it: Self)
        requires
            old(buffer).wf(),
        ensures
            it.wf(),
            it.window() == old(buffer)@,
            it.remaining() == old(buffer)@,
            it.capacity() == old(buffer).capacity(),
            *final(buffer) == *final(it.buffer),
    {
        let pos = buffer.first_pos();
        let it = Self { pos, count: 0, buffer };
        proof {
            assert(it.remaining() =~= it.window());
        }
        it
    }

    /// The next element, if any is left, for reading and writing. What is
    /// written to it takes its place in the window.
    pub fn next(&mut self) -> (r: Option<&mut T>)
        requires
            old(self).wf(),
        ensures
            final(self).wf(),
            *final(final(self).buffer) == *final(old(self).buffer),
            final(self).capacity() == old(self).capacity(),
            match r {
                Some(v) => {
                    let at = old(self).window().len() - old(self).remaining().len();
                    &&& old(self).remaining().len() > 0
                    &&& *v == old(self).remaining()[0]
                    &&& final(self).window() == old(self).window().update(at, *final(v))
                    &&& final(self).remaining() == old(self).remaining().subrange(
                        1,
                        old(self).remaining().len() as int,
                    )
                },
                None => old(self).remaining().len() == 0 && final(self).remaining().len() == 0
                    && final(self).window() == old(self).window(),
            },
    {
        if self.count == self.buffer.len() {
            return None;
        }
        let ghost k: nat = choose|k: nat|
            k < usize::BITS && self.buffer.data@.len() == pow2(k) && self.buffer.mask
                == low_bits_mask(k);
        let ghost rest = self.remaining();
        let ghost data = self.buffer.data@;
        let ghost filled = self.buffer.filled;
        let ghost head = self.buffer.pos as int;
        let ghost at = self.count as int;
        let cap = self.buffer.data.len();
        let pos = self.pos;
        proof {
            lemma_mask_wraps(pos, cap, k);
            lemma_mask_wraps((pos + 1) as usize, cap, k);
            assert forall|w: T| #![trigger data.update(pos as int, w)]
                shown(data.update(pos as int, w), filled, head) == shown(
                    data,
                    filled,
                    head,
                ).update(at, w) by {
                lemma_shown_update(data, filled, head, at, w);
            }
            assert forall|w: T| #![trigger data.update(pos as int, w)]
                shown(data, filled, head).update(at, w).subrange(
                    at + 1,
                    shown(data, filled, head).len() as int,
                ) == rest.subrange(1, rest.len() as int) by {
                assert(shown(data, filled, head).update(at, w).subrange(
                    at + 1,
                    shown(data, filled, head).len() as int,
                ) =~= rest.subrange(1, rest.len() as int));
            }
        }
        self.pos = (pos + 1) & self.buffer.mask;
        self.count = self.count + 1;
        Some(&mut self.buffer.data[pos])
    }
}

} // verus!
