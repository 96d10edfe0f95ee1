//! A window over a set of buffers: a size, the buffers shown in it, and the
//! index of the one receiving keys. Multi-buffer layout is not implemented;
//! the operations that would need it are placeholders.

use crate::buffer::Buffer;
use vstd::prelude::*;

verus! {

/// One window: its size, its buffers, and which of them receives keys.
pub struct Window {
    pub size: (u16, u16),
    pub buffers: Vec<Buffer>,
    pub buf_ptr: usize,
}

impl Window {
    /// An empty window.
    pub fn new() -> (w: Window)
        ensures
            w.size == (0u16, 0u16),
            w.buffers.len() == 0,
            w.buf_ptr == 0,
    {
        Window { size: (0, 0), buffers: Vec::new(), buf_ptr: 0 }
    }

    /// Appends a buffer to the window.
    pub fn add_buffer(&mut self, new_buffer: Buffer)
        ensures
            final (self).buffers@ == old(self).buffers@.push(new_buffer),
            final (self).size == old(self).size,
            final (self).buf_ptr == old(self).buf_ptr,
    {
        self.buffers.push(new_buffer);
    }

    /// Removing a buffer is not implemented; the window is unchanged.
    pub fn remove_buffer(&mut self)
        ensures
            *final (self) == *old(self),
    {
    }

    /// Records a new size on the window and every buffer in it.
    pub fn resize(&mut self, size: (u16, u16))
        ensures
            final (self).size == size,
            final (self).buf_ptr == old(self).buf_ptr,
            final (self).buffers.len() == old(self).buffers.len(),
            forall|i: int|
                0 <= i < old(self).buffers.len() ==> crate::editor::resized(
                    old(self).buffers@[i],
                    #[trigger] final (self).buffers@[i],
                    size,
                ),
    {
        self.size = size;
        let mut i: usize = 0;
        while i < self.buffers.len()
            invariant
                i <= self.buffers.len(),
                self.buffers.len() == old(self).buffers.len(),
                self.buf_ptr == old(self).buf_ptr,
                self.size == size,
                forall|j: int|
                    0 <= j < i ==> crate::editor::resized(
                        old(self).buffers@[j],
                        #[trigger] self.buffers@[j],
                        size,
                    ),
                forall|j: int|
                    i <= j < self.buffers.len() ==> self.buffers@[j] == old(self).buffers@[j],
            decreases self.buffers.len() - i,
        {
            let ghost pre = self.buffers@;
            let mut b = self.buffers.remove(i);
            b.resize(size);
            self.buffers.insert(i, b);
            proof {
                assert(self.buffers@ =~= pre.update(i as int, b));
            }
            i += 1;
        }
    }

    /// The per-buffer view is not implemented.
    pub fn get_view() {
    }

    /// Moving a buffer between windows is not implemented.
    pub fn move_buffer() {
    }

    /// Splitting a buffer into a new window is not implemented.
    pub fn move_buffer_to_new_window() {
    }

    /// Window-level key handling is not implemented.
    pub fn key_press() {
    }
}

} // verus!
