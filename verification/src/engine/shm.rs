use crate::engine::buffer::Buffer;
use crate::engine::mapping::{mapped_bytes, mapped_len};
use crate::engine::protocol::{Format, Request};
use crate::utils::error::{WallpaperError, WallpaperResult};
use memmap2::MmapMut;
use vstd::prelude::*;
use vstd::string::*;

verus! {

/// What a single mapped frame is, as plain values.
pub struct ShmView {
    pub width: u32,
    pub height: u32,
    pub bytes: Seq<u8>,
}

impl ShmView {
    /// Bytes of the frame, four for each pixel.
    pub open spec fn frame(self) -> int {
        self.width as int * self.height as int * 4
    }

    /// The frame is not empty, fits the signed 32-bit sizes of the protocol
    /// and lies inside the memory.
    pub open spec fn valid(self) -> bool {
        &&& shm_geometry_ok(self.width, self.height)
        &&& self.bytes.len() >= self.frame()
    }

    /// The requests that turn the frame into a buffer of its own: a pool
    /// over exactly the frame, the buffer at its start, and the pool's end,
    /// since the buffer keeps the memory alive.
    pub open spec fn buffer_requests(self, pool: u32, buffer: u32) -> Seq<Request> {
        seq![
            Request::CreatePool { pool, size: self.frame() as i32 },
            Request::CreateBuffer {
                pool,
                buffer,
                offset: 0,
                width: self.width as i32,
                height: self.height as i32,
                stride: (self.width as int * 4) as i32,
                format: Format::Argb8888,
            },
            Request::DestroyPool { pool },
        ]
    }
}

/// Whether a frame of this size can be a buffer: both sides are positive
/// and its bytes fit the signed 32-bit sizes of the protocol.
pub open spec fn shm_geometry_ok(width: u32, height: u32) -> bool {
    width > 0 && height > 0 && width as int * height as int * 4 <= i32::MAX as int
}

/// One frame of pixels in a memory region of its own, for a buffer that
/// shares its region with no other.
pub struct ShmBuffer {
    mmap: MmapMut,
    size: (u32, u32),
}

impl View for ShmBuffer {
    type V = ShmView;

    closed spec fn view(&self) -> ShmView {
        ShmView { width: self.size.0, height: self.size.1, bytes: mapped_bytes(self.mmap) }
    }
}

impl ShmBuffer {
    /// A frame of `width` by `height` pixels over the memory `mmap`.
    ///
    /// Fails with `Memory` exactly if a side is zero, the frame does not
    /// fit the protocol's sizes, or the memory is shorter than the frame.
    pub fn new(width: u32, height: u32, mmap: MmapMut) -> (r: WallpaperResult<ShmBuffer>)
        ensures
            match r {
                Ok(shm) => {
                    &&& shm@.valid()
                    &&& shm@ == (ShmView { width, height, bytes: mapped_bytes(mmap) })
                },
                Err(e) => {
                    &&& e is Memory
                    &&& !(shm_geometry_ok(width, height) && mapped_bytes(mmap).len()
                        >= width as int * height as int * 4)
                },
            },
    {
        if width == 0 || height == 0 {
            return Err(WallpaperError::Memory(String::from_str("unsupported buffer geometry")));
        }
        assert(0 < width as int * height as int <= 0xffff_ffff * 0xffff_ffff) by (nonlinear_arith)
            requires
                0 < width as int <= 0xffff_ffff,
                0 < height as int <= 0xffff_ffff,
        ;
        let pixels: u64 = (width as u64) * (height as u64);
        if pixels > (i32::MAX as u64) / 4 {
            return Err(WallpaperError::Memory(String::from_str("unsupported buffer geometry")));
        }
        let size: u64 = pixels * 4;
        if (mapped_len(&mmap) as u64) < size {
            return Err(WallpaperError::Memory(String::from_str("shared memory too small")));
        }
        Ok(ShmBuffer { mmap, size: (width, height) })
    }

    /// The memory of the frame, to be written by the caller. The frame
    /// afterwards holds what the caller left in the slice.
    pub fn as_mut_slice(&mut self) -> (slice: &mut [u8])
        ensures
            slice@ == old(self)@.bytes,
            final(self)@ == (ShmView { bytes: final(slice)@, ..old(self)@ }),
            old(self)@.valid() ==> final(self)@.valid(),
    {
        &mut *self.mmap
    }

    /// The memory of the frame, to be read.
    pub fn as_slice(&self) -> (slice: &[u8])
        ensures
            slice@ == self@.bytes,
    {
        &*self.mmap
    }

    /// Size of the frame in pixels, width first.
    pub fn size(&self) -> (size: (u32, u32))
        ensures
            size == (self@.width, self@.height),
    {
        self.size
    }

    /// Turns the frame into a buffer known as `buffer`, through a pool
    /// known as `pool` that lives only for its creation. Returns the buffer
    /// and the requests that create it; whoever sends them backs the pool
    /// with a copy of the frame's bytes.
    pub fn create_buffer(&self, pool: u32, buffer: u32) -> (r: (Buffer, Vec<Request>))
        requires
            self@.valid(),
        ensures
            r.0 == (Buffer {
                buffer,
                width: self@.width,
                height: self@.height,
                released: true,
                release_count: 0,
            }),
            r.1@ == self@.buffer_requests(pool, buffer),
    {
        let (width, height) = self.size;
        assert(width as int * 4 <= width as int * height as int * 4) by (nonlinear_arith)
            requires
                width > 0,
                height > 0,
        ;
        assert(height as int * 4 <= width as int * height as int * 4) by (nonlinear_arith)
            requires
                width > 0,
                height > 0,
        ;
        let stride: u32 = width * 4;
        assert(stride as int * height as int == width as int * height as int * 4)
            by (nonlinear_arith)
            requires
                stride as int == width as int * 4,
        ;
        let size: u32 = stride * height;
        let mut requests: Vec<Request> = Vec::new();
        requests.push(Request::CreatePool { pool, size: size as i32 });
        requests.push(
            Request::CreateBuffer {
                pool,
                buffer,
                offset: 0,
                width: width as i32,
                height: height as i32,
                stride: stride as i32,
                format: Format::Argb8888,
            },
        );
        requests.push(Request::DestroyPool { pool });
        assert(requests@ =~= self@.buffer_requests(pool, buffer));
        (Buffer::new(width, height, buffer), requests)
    }
}

} // verus!
