use vstd::prelude::*;

verus! {

/// A pixel buffer that the compositor knows by the handle `buffer`.
///
/// `released` says whether the compositor has handed the buffer back, so
/// that its memory may be written again; `release_count` counts how often it
/// did so.
#[derive(Debug, Clone, Copy, PartialEq, Eq, Structural)]
pub struct Buffer {
    pub buffer: u32,
    pub width: u32,
    pub height: u32,
    pub released: bool,
    pub release_count: u32,
}

impl Buffer {
    /// A buffer nobody holds yet: it counts as released and was never
    /// handed back.
    pub fn new(width: u32, height: u32, buffer: u32) -> (b: Buffer)
        ensures
            b == (Buffer { buffer, width, height, released: true, release_count: 0 }),
    {
        Buffer { buffer, width, height, released: true, release_count: 0 }
    }

    /// The handle by which the compositor knows this buffer.
    pub fn buffer(&self) -> (id: u32)
        ensures
            id == self.buffer,
    {
        self.buffer
    }

    pub fn width(&self) -> (w: u32)
        ensures
            w == self.width,
    {
        self.width
    }

    pub fn height(&self) -> (h: u32)
        ensures
            h == self.height,
    {
        self.height
    }

    /// What `set_released` makes of a buffer: the flag is stored, and a
    /// release is counted, the count wrapping round at `u32::MAX`.
    pub open spec fn with_released(self, released: bool) -> Buffer {
        Buffer {
            released,
            release_count: if !released {
                self.release_count
            } else if self.release_count == u32::MAX {
                0
            } else {
                (self.release_count + 1) as u32
            },
            ..self
        }
    }

    /// Records whether the compositor has handed the buffer back.
    pub fn set_released(&mut self, released: bool)
        ensures
            *final(self) == old(self).with_released(released),
    {
        self.released = released;
        if released {
            self.release_count = if self.release_count == u32::MAX {
                0
            } else {
                self.release_count + 1
            };
        }
    }

    pub fn is_released(&self) -> (r: bool)
        ensures
            r == self.released,
    {
        self.released
    }

    pub fn release_count(&self) -> (n: u32)
        ensures
            n == self.release_count,
    {
        self.release_count
    }

    pub fn size(&self) -> (s: (u32, u32))
        ensures
            s == (self.width, self.height),
    {
        (self.width, self.height)
    }
}

} // verus!
