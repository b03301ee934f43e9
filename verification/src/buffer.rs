//! Bookkeeping for a growable device-backed instance buffer.
//!
//! A `BackedBuffer` separates how much logical data exists this frame from
//! how large the allocated backing store is, so a frame whose element count
//! stays within previously-seen bounds needs no reallocation. The library
//! keeps the logical contents and every allocation decision here, verified;
//! the owner holds the actual device buffer beside it and applies each
//! [`StoreSync`] this bookkeeping hands out. A reader's view of the buffer
//! is exactly the logical contents — bytes beyond the logical length exist
//! only in the backing store and are never handed out.

use vstd::prelude::*;

verus! {

/// What the backing store must do after a batch session closed.
#[derive(Debug, Clone, Copy, PartialEq, Eq, Structural)]
pub enum StoreSync {
    /// The session outgrew the store: recreate it at exactly the new
    /// capacity and upload the whole logical contents once.
    Reallocate,
    /// The session stayed within capacity: write only the elements from
    /// the given logical index onward, in place.
    WriteRange { from: usize },
}

/// Logical contents and allocation bookkeeping of a device-backed buffer.
pub struct BackedBuffer<T> {
    /// The logical elements; its length is the buffer's logical length.
    pub data: Vec<T>,
    /// Element capacity of the backing store.
    pub capacity: usize,
    /// How many times the backing store was reallocated.
    pub reallocs: u64,
}

impl<T> BackedBuffer<T> {
    /// The logical contents fit the backing store.
    pub open spec fn wf(self) -> bool {
        self.data@.len() <= self.capacity
    }

    /// An empty buffer over a store sized for `n` elements.
    pub fn with_capacity(n: usize) -> (b: BackedBuffer<T>)
        ensures
            b.wf(),
            b.data@.len() == 0,
            b.capacity == n,
            b.reallocs == 0,
    {
        BackedBuffer { data: Vec::new(), capacity: n, reallocs: 0 }
    }

    /// A buffer holding `items` over a store sized exactly for them.
    pub fn with_data(items: Vec<T>) -> (b: BackedBuffer<T>)
        ensures
            b.wf(),
            b.data@ == items@,
            b.capacity == items@.len(),
            b.reallocs == 0,
    {
        let capacity = items.len();
        BackedBuffer { data: items, capacity, reallocs: 0 }
    }

    /// The logical element count.
    pub fn len(&self) -> (n: usize)
        ensures
            n == self.data@.len(),
    {
        self.data.len()
    }

    /// The element capacity of the backing store.
    pub fn capacity(&self) -> (n: usize)
        ensures
            n == self.capacity,
    {
        self.capacity
    }

    /// How many times the backing store was reallocated.
    pub fn reallocs(&self) -> (n: u64)
        ensures
            n == self.reallocs,
    {
        self.reallocs
    }

    /// The readable view: exactly the logical elements, never the backing
    /// store's spare room.
    pub fn items(&self) -> (r: &Vec<T>)
        ensures
            r == &self.data,
    {
        &self.data
    }

    /// Drop the logical contents. The backing store and its capacity are
    /// retained; nothing is deallocated or cleared device-side.
    pub fn clear(&mut self)
        ensures
            final(self).wf(),
            final(self).data@.len() == 0,
            final(self).capacity == old(self).capacity,
            final(self).reallocs == old(self).reallocs,
    {
        self.data.clear();
    }

    /// Replace the element at `i`; the owner then rewrites the whole store
    /// from the contents.
    pub fn update(&mut self, i: usize, value: T)
        requires
            i < old(self).data@.len(),
        ensures
            final(self).data@ == old(self).data@.update(i as int, value),
            final(self).capacity == old(self).capacity,
            final(self).reallocs == old(self).reallocs,
    {
        self.data[i] = value;
    }

    /// Open an append session. The buffer is consumed; it comes back from
    /// [`Batch::finish`], so no push can land after the session closed.
    pub fn batch(self) -> (b: Batch<T>)
        requires
            self.wf(),
        ensures
            b.wf(),
            b.buf.data@ == self.data@,
            b.buf.capacity == self.capacity,
            b.buf.reallocs == self.reallocs,
            b.opened_at == self.data@.len(),
    {
        let opened_at = self.data.len();
        Batch { buf: self, opened_at }
    }
}

/// A scoped append session over a [`BackedBuffer`].
pub struct Batch<T> {
    /// The buffer under the session.
    pub buf: BackedBuffer<T>,
    /// The logical length when the session opened.
    pub opened_at: usize,
}

impl<T> Batch<T> {
    /// The session only ever appends.
    pub open spec fn wf(self) -> bool {
        self.opened_at <= self.buf.data@.len()
    }

    /// Append one logical element.
    pub fn push(&mut self, item: T)
        requires
            old(self).wf(),
        ensures
            final(self).wf(),
            final(self).buf.data@ == old(self).buf.data@.push(item),
            final(self).buf.capacity == old(self).buf.capacity,
            final(self).buf.reallocs == old(self).buf.reallocs,
            final(self).opened_at == old(self).opened_at,
    {
        self.buf.data.push(item);
    }

    /// Close the session. If the logical length outgrew the capacity, the
    /// store is recorded as reallocated exactly once, to exactly the new
    /// length; otherwise the store keeps its capacity and only the appended
    /// range needs writing.
    pub fn finish(self) -> (r: (BackedBuffer<T>, StoreSync))
        requires
            self.wf(),
            self.buf.reallocs < u64::MAX,
        ensures
            r.0.wf(),
            r.0.data@ == self.buf.data@,
            self.buf.data@.len() > self.buf.capacity ==> {
                &&& r.0.capacity == self.buf.data@.len()
                &&& r.0.reallocs == self.buf.reallocs + 1
                &&& r.1 == StoreSync::Reallocate
            },
            self.buf.data@.len() <= self.buf.capacity ==> {
                &&& r.0.capacity == self.buf.capacity
                &&& r.0.reallocs == self.buf.reallocs
                &&& r.1 == (StoreSync::WriteRange { from: self.opened_at })
            },
    {
        let mut buf = self.buf;
        if buf.data.len() > buf.capacity {
            buf.capacity = buf.data.len();
            buf.reallocs = buf.reallocs + 1;
            (buf, StoreSync::Reallocate)
        } else {
            (buf, StoreSync::WriteRange { from: self.opened_at })
        }
    }
}

} // verus!
