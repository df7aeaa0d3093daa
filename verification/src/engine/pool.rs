use crate::engine::buffer::Buffer;
use crate::engine::mapping::{mapped_bytes, mapped_len, mapped_load, mapped_store};
use crate::engine::protocol::{Format, Request};
use crate::utils::error::{WallpaperError, WallpaperResult};
use memmap2::MmapMut;
use vstd::prelude::*;
use vstd::string::*;

verus! {

/// Number of buffers that a pool holds at most: one may be with the
/// compositor while the other is written.
pub const BUFFER_COUNT: usize = 2;

/// Bytes of one frame of `width` by `height` pixels, four bytes each.
pub open spec fn frame_len(width: i32, height: i32) -> int {
    width as int * height as int * 4
}

/// Whether a pool can serve frames of this size: both sides are positive
/// and `BUFFER_COUNT` frames fit the signed 32-bit sizes of the protocol.
pub open spec fn geometry_ok(width: i32, height: i32) -> bool {
    width > 0 && height > 0 && BUFFER_COUNT as int * frame_len(width, height) <= i32::MAX as int
}

/// What a pool is, as plain values.
pub struct PoolView {
    /// Handle of the backing pool object; the buffers get the handles that
    /// follow it.
    pub id: u32,
    pub width: i32,
    pub height: i32,
    /// The slot that `write_pixels` writes into: the one that `get_buffer`
    /// chose last.
    pub cursor: int,
    /// The buffers created so far; the buffer at index `i` lies in slot `i`.
    pub buffers: Seq<Buffer>,
    /// Whether the backing pool object was asked for.
    pub pool_created: bool,
    /// The shared memory, slot after slot.
    pub bytes: Seq<u8>,
}

/// Whether slot `i` holds the first buffer, in slot order, that the
/// compositor has released.
pub open spec fn is_first_released(buffers: Seq<Buffer>, i: int) -> bool {
    &&& 0 <= i < buffers.len()
    &&& buffers[i].released
    &&& forall|j: int| 0 <= j < i ==> !(#[trigger] buffers[j]).released
}

/// Whether no buffer is released.
pub open spec fn none_released(buffers: Seq<Buffer>) -> bool {
    forall|j: int| 0 <= j < buffers.len() ==> !(#[trigger] buffers[j]).released
}

/// Position in the source of the byte that lands at position `k` of a
/// pixel: red and blue change places, green and alpha stay.
pub open spec fn source_channel(k: int) -> int {
    if k == 0 {
        2
    } else if k == 2 {
        0
    } else {
        k
    }
}

/// The memory `bytes` after the first `count` pixels of `pixels`, given as
/// red, green, blue, alpha, were written at `base` as blue, green, red,
/// alpha. Bytes outside those `4 * count` are as before.
pub open spec fn reordered(bytes: Seq<u8>, base: int, pixels: Seq<u8>, count: int) -> Seq<u8> {
    Seq::new(
        bytes.len(),
        |k: int|
            if base <= k < base + 4 * count {
                pixels[4 * ((k - base) / 4) + source_channel((k - base) % 4)]
            } else {
                bytes[k]
            },
    )
}

/// Pixel `i` of `pixels`, as (red, green, blue, alpha).
pub open spec fn source_pixel(pixels: Seq<u8>, i: int) -> (u8, u8, u8, u8) {
    (pixels[4 * i], pixels[4 * i + 1], pixels[4 * i + 2], pixels[4 * i + 3])
}

/// Pixel `i` of the frame that starts at `base`, read the way the
/// compositor reads `Argb8888` memory, as (red, green, blue, alpha).
pub open spec fn shown_pixel(bytes: Seq<u8>, base: int, i: int) -> (u8, u8, u8, u8) {
    (
        bytes[base + 4 * i + 2],
        bytes[base + 4 * i + 1],
        bytes[base + 4 * i],
        bytes[base + 4 * i + 3],
    )
}

/// Writing pixels loses nothing: read back the way the compositor reads
/// the frame, every whole pixel of the source has its four channel values,
/// whatever the number of bytes of the source.
pub proof fn lemma_reorder_lossless(bytes: Seq<u8>, base: int, pixels: Seq<u8>, i: int)
    requires
        0 <= base,
        base + pixels.len() <= bytes.len(),
        0 <= i < pixels.len() / 4,
    ensures
        shown_pixel(reordered(bytes, base, pixels, pixels.len() as int / 4), base, i)
            == source_pixel(pixels, i),
{
    let count = pixels.len() as int / 4;
    let out = reordered(bytes, base, pixels, count);
    assert forall|c: int| 0 <= c < 4 implies #[trigger] out[base + 4 * i + c] == pixels[4 * i
        + source_channel(c)] by {
        let k = base + 4 * i + c;
        assert(base <= k < base + 4 * count);
        assert((k - base) / 4 == i && (k - base) % 4 == c) by (nonlinear_arith)
            requires
                k - base == 4 * i + c,
                0 <= c < 4,
                0 <= i,
        ;
    }
    assert(out[base + 4 * i + 0] == pixels[4 * i + 2]);
    assert(out[base + 4 * i + 1] == pixels[4 * i + 1]);
    assert(out[base + 4 * i + 2] == pixels[4 * i + 0]);
    assert(out[base + 4 * i + 3] == pixels[4 * i + 3]);
}

impl PoolView {
    pub open spec fn frame(self) -> int {
        frame_len(self.width, self.height)
    }

    /// What holds of every pool: its frames fit, it never holds more than
    /// `BUFFER_COUNT` buffers, each buffer has the handle and the size of
    /// its slot, and no buffer exists without the backing pool object.
    pub open spec fn valid(self) -> bool {
        &&& geometry_ok(self.width, self.height)
        &&& self.id as int + BUFFER_COUNT as int <= u32::MAX as int
        &&& self.buffers.len() <= BUFFER_COUNT
        &&& 0 <= self.cursor < BUFFER_COUNT
        &&& self.bytes.len() >= BUFFER_COUNT as int * self.frame()
        &&& self.buffers.len() > 0 ==> self.pool_created
        &&& forall|i: int|
            0 <= i < self.buffers.len() ==> {
                &&& (#[trigger] self.buffers[i]).buffer as int == self.id as int + 1 + i
                &&& self.buffers[i].width as int == self.width as int
                &&& self.buffers[i].height as int == self.height as int
            }
    }

    /// Whether the slot under the cursor may be written: it holds no
    /// buffer yet, or one that the compositor does not own.
    pub open spec fn writable(self) -> bool {
        self.cursor >= self.buffers.len() || self.buffers[self.cursor].released
    }

    /// The buffer that is created for the next free slot.
    pub open spec fn next_buffer(self) -> Buffer {
        Buffer {
            buffer: (self.id as int + 1 + self.buffers.len()) as u32,
            width: self.width as u32,
            height: self.height as u32,
            released: true,
            release_count: 0,
        }
    }

    /// The requests that create the buffer of the next free slot, after the
    /// backing pool object where that is still missing.
    pub open spec fn creation_requests(self) -> Seq<Request> {
        let pool = if self.pool_created {
            Seq::<Request>::empty()
        } else {
            seq![
                Request::CreatePool {
                    pool: self.id,
                    size: (BUFFER_COUNT as int * self.frame()) as i32,
                },
            ]
        };
        pool + seq![
            Request::CreateBuffer {
                pool: self.id,
                buffer: self.next_buffer().buffer,
                offset: (self.buffers.len() * self.frame()) as i32,
                width: self.width,
                height: self.height,
                stride: (self.width as int * 4) as i32,
                format: Format::Argb8888,
            },
        ]
    }

    /// The slot that `get_buffer` chooses: the first released buffer; if
    /// none is released, the next free slot; if there is none, nothing.
    pub open spec fn chosen_slot(self) -> Option<int> {
        if !none_released(self.buffers) {
            Some(choose|i: int| is_first_released(self.buffers, i))
        } else if self.buffers.len() < BUFFER_COUNT {
            Some(self.buffers.len() as int)
        } else {
            None
        }
    }

    /// The pool after `get_buffer`.
    pub open spec fn after_get(self) -> PoolView {
        match self.chosen_slot() {
            Some(i) => if i < self.buffers.len() {
                PoolView { cursor: i, ..self }
            } else {
                PoolView {
                    cursor: i,
                    buffers: self.buffers.push(self.next_buffer()),
                    pool_created: true,
                    ..self
                }
            },
            None => self,
        }
    }

    /// What `get_buffer` hands out: the chosen buffer and the requests that
    /// create it, which are none for a buffer that exists already.
    pub open spec fn got(self) -> Option<(Buffer, Seq<Request>)> {
        match self.chosen_slot() {
            Some(i) => if i < self.buffers.len() {
                Some((self.buffers[i], Seq::<Request>::empty()))
            } else {
                Some((self.next_buffer(), self.creation_requests()))
            },
            None => None,
        }
    }

    /// The pool after the buffer with handle `buffer`, if it is one of the
    /// pool's, had its released flag set to `released`.
    pub open spec fn marked(self, buffer: u32, released: bool) -> PoolView {
        PoolView {
            buffers: Seq::new(
                self.buffers.len(),
                |i: int|
                    if self.buffers[i].buffer == buffer {
                        self.buffers[i].with_released(released)
                    } else {
                        self.buffers[i]
                    },
            ),
            ..self
        }
    }

    /// Whether `buffer` is the handle of one of the pool's buffers.
    pub open spec fn owns(self, buffer: u32) -> bool {
        exists|i: int| 0 <= i < self.buffers.len() && (#[trigger] self.buffers[i]).buffer == buffer
    }

    /// The requests that take the pool down: every buffer is destroyed,
    /// then the backing pool object if it exists.
    pub open spec fn teardown_requests(self) -> Seq<Request> {
        Seq::new(
            self.buffers.len(),
            |i: int| Request::DestroyBuffer { buffer: self.buffers[i].buffer },
        ) + if self.pool_created {
            seq![Request::DestroyPool { pool: self.id }]
        } else {
            Seq::<Request>::empty()
        }
    }
}

/// The first released slot is unique.
pub proof fn lemma_first_released_unique(buffers: Seq<Buffer>, i: int, j: int)
    requires
        is_first_released(buffers, i),
        is_first_released(buffers, j),
    ensures
        i == j,
{
    if i < j {
        assert(!buffers[i].released);
    } else if j < i {
        assert(!buffers[j].released);
    }
}

/// A pool never grows past its capacity: `get_buffer` keeps a valid pool
/// valid, so it holds at most `BUFFER_COUNT` buffers afterwards, and it
/// creates a buffer only when none is released.
pub proof fn lemma_get_keeps_capacity(pool: PoolView)
    requires
        pool.valid(),
    ensures
        pool.after_get().valid(),
        pool.after_get().buffers.len() <= BUFFER_COUNT,
        !none_released(pool.buffers) ==> pool.after_get().buffers == pool.buffers,
{
    if !none_released(pool.buffers) {
        lemma_some_first_released(pool.buffers);
        let i = choose|i: int| is_first_released(pool.buffers, i);
        assert(pool.after_get() == PoolView { cursor: i, ..pool });
    } else if pool.buffers.len() < BUFFER_COUNT {
        let after = pool.after_get();
        assert forall|i: int| 0 <= i < after.buffers.len() implies {
            &&& (#[trigger] after.buffers[i]).buffer as int == after.id as int + 1 + i
            &&& after.buffers[i].width as int == after.width as int
            &&& after.buffers[i].height as int == after.height as int
        } by {
            if i < pool.buffers.len() {
                assert(after.buffers[i] == pool.buffers[i]);
            }
        }
    }
}

/// Where some buffer is released, there is a first one.
pub proof fn lemma_some_first_released(buffers: Seq<Buffer>)
    requires
        !none_released(buffers),
    ensures
        exists|i: int| is_first_released(buffers, i),
{
    let j = choose|j: int| 0 <= j < buffers.len() && (#[trigger] buffers[j]).released;
    lemma_first_released_upto(buffers, j);
}

proof fn lemma_first_released_upto(buffers: Seq<Buffer>, j: int)
    requires
        0 <= j < buffers.len(),
        buffers[j].released,
    ensures
        exists|i: int| is_first_released(buffers, i),
    decreases j,
{
    if forall|k: int| 0 <= k < j ==> !(#[trigger] buffers[k]).released {
        assert(is_first_released(buffers, j));
    } else {
        let k = choose|k: int| 0 <= k < j && (#[trigger] buffers[k]).released;
        lemma_first_released_upto(buffers, k);
    }
}

/// A buffer that the compositor holds is never handed out: what
/// `get_buffer` chooses is released, and the slot it leaves the cursor on
/// may be written.
pub proof fn lemma_chosen_buffer_is_free(pool: PoolView)
    requires
        pool.valid(),
    ensures
        pool.got() matches Some((buffer, _)) ==> buffer.released && pool.after_get().writable(),
{
    if !none_released(pool.buffers) {
        lemma_some_first_released(pool.buffers);
    }
}

/// A buffer handed to a surface is safe from writing: once the buffer
/// under the cursor is marked as held by the compositor, the slot may not
/// be written until the buffer is marked released again.
pub proof fn lemma_held_buffer_is_not_written(pool: PoolView, buffer: u32)
    requires
        pool.valid(),
        0 <= pool.cursor < pool.buffers.len(),
        pool.buffers[pool.cursor].buffer == buffer,
    ensures
        !pool.marked(buffer, false).writable(),
        pool.marked(buffer, false).marked(buffer, true).writable(),
{
}

/// Reuse instead of growth: when a full pool gets both of its buffers
/// released, the next `get_buffer` hands out one of the two, creates
/// nothing and sends nothing.
pub proof fn lemma_released_buffers_are_reused(pool: PoolView)
    requires
        pool.valid(),
        pool.buffers.len() == BUFFER_COUNT,
    ensures
        ({
            let freed = pool.marked(pool.buffers[0].buffer, true).marked(
                pool.buffers[1].buffer,
                true,
            );
            &&& freed.valid()
            &&& freed.got() matches Some((buffer, requests))
            &&& requests.len() == 0
            &&& buffer.buffer == pool.buffers[0].buffer || buffer.buffer == pool.buffers[1].buffer
            &&& freed.after_get().buffers.len() == BUFFER_COUNT
        }),
{
    let once = pool.marked(pool.buffers[0].buffer, true);
    let freed = once.marked(pool.buffers[1].buffer, true);
    assert(pool.buffers[0].buffer != pool.buffers[1].buffer);
    assert(once.buffers[0].released);
    assert(freed.buffers[0].released);
    assert(freed.buffers[0].buffer == pool.buffers[0].buffer);
    assert(freed.buffers[1].buffer == pool.buffers[1].buffer);
    assert(!none_released(freed.buffers));
    assert(is_first_released(freed.buffers, 0));
    let i = choose|i: int| is_first_released(freed.buffers, i);
    lemma_first_released_unique(freed.buffers, i, 0);
}

/// A pool of at most `BUFFER_COUNT` pixel buffers over one region of shared
/// memory, slot after slot.
///
/// `get_buffer` chooses the buffer to write next and `write_pixels` fills
/// it. A buffer handed to a surface is marked with `mark_attached` and must
/// not be written until the compositor's release has been recorded with
/// `mark_released`. When every buffer is with the compositor the pool does
/// not grow: `get_buffer` returns nothing and the caller has to wait for a
/// release.
pub struct BufferPool {
    id: u32,
    mmap: MmapMut,
    size: usize,
    width: i32,
    height: i32,
    current_index: usize,
    buffers: Vec<Buffer>,
    pool: bool,
    stride: i32,
}

impl View for BufferPool {
    type V = PoolView;

    closed spec fn view(&self) -> PoolView {
        PoolView {
            id: self.id,
            width: self.width,
            height: self.height,
            cursor: self.current_index as int,
            buffers: self.buffers@,
            pool_created: self.pool,
            bytes: mapped_bytes(self.mmap),
        }
    }
}

/// Size in bytes of the shared memory that a pool for frames of `width` by
/// `height` pixels needs, if such a pool can exist.
pub fn region_size(width: i32, height: i32) -> (size: Option<usize>)
    ensures
        size == if geometry_ok(width, height) {
            Some((BUFFER_COUNT as int * frame_len(width, height)) as usize)
        } else {
            None::<usize>
        },
{
    if width <= 0 || height <= 0 {
        return None;
    }
    assert(0 < width as int * height as int <= 0x7fff_ffff * 0x7fff_ffff) by (nonlinear_arith)
        requires
            0 < width as int <= 0x7fff_ffff,
            0 < height as int <= 0x7fff_ffff,
    ;
    let pixels: u64 = (width as u64) * (height as u64);
    if pixels > (i32::MAX as u64) / 8 {
        assert(BUFFER_COUNT as int * frame_len(width, height) == 8 * pixels as int);
        return None;
    }
    let size: u64 = pixels * 8;
    assert(size as int == BUFFER_COUNT as int * frame_len(width, height));
    Some(size as usize)
}

impl BufferPool {
    /// What holds of every pool between calls.
    pub open spec fn wf(&self) -> bool {
        self.consistent() && self@.valid()
    }

    /// The sizes that the pool keeps agree with its geometry.
    pub closed spec fn consistent(&self) -> bool {
        &&& self.size as int == BUFFER_COUNT as int * frame_len(self.width, self.height)
        &&& self.stride as int == self.width as int * 4
    }

    /// A pool with handle `id` for frames of `width` by `height` pixels over
    /// the memory `mmap`, with no buffer yet.
    ///
    /// Fails with `Memory` exactly if the size is not positive, the frames
    /// do not fit the protocol's sizes, the memory is shorter than
    /// `BUFFER_COUNT` frames, or no handles are left after `id` for the
    /// buffers.
    pub fn new(id: u32, width: i32, height: i32, mmap: MmapMut) -> (r: WallpaperResult<
        BufferPool,
    >)
        ensures
            match r {
                Ok(pool) => {
                    &&& pool.wf()
                    &&& pool@ == (PoolView {
                        id,
                        width,
                        height,
                        cursor: 0,
                        buffers: Seq::<Buffer>::empty(),
                        pool_created: false,
                        bytes: mapped_bytes(mmap),
                    })
                },
                Err(e) => {
                    &&& e is Memory
                    &&& !(geometry_ok(width, height) && id as int + BUFFER_COUNT as int
                        <= u32::MAX as int && mapped_bytes(mmap).len() >= BUFFER_COUNT as int
                        * frame_len(width, height))
                },
            },
    {
        let size: usize = match region_size(width, height) {
            Some(size) => size,
            None => {
                return Err(
                    WallpaperError::Memory(String::from_str("unsupported buffer geometry")),
                );
            },
        };
        if id > u32::MAX - (BUFFER_COUNT as u32) {
            return Err(WallpaperError::Memory(String::from_str("no buffer handles left")));
        }
        if mapped_len(&mmap) < size {
            return Err(WallpaperError::Memory(String::from_str("shared memory too small")));
        }
        assert(width as int * 4 <= frame_len(width, height)) by (nonlinear_arith)
            requires
                width > 0,
                height > 0,
        ;
        Ok(
            BufferPool {
                id,
                mmap,
                size,
                width,
                height,
                current_index: 0,
                buffers: Vec::new(),
                pool: false,
                stride: width * 4,
            },
        )
    }

    /// Whether `write_pixels` may be called: the slot under the cursor is
    /// not owned by the compositor.
    pub fn can_write(&self) -> (r: bool)
        requires
            self.wf(),
        ensures
            r == self@.writable(),
    {
        self.current_index >= self.buffers.len() || self.buffers[self.current_index].released
    }

    /// Bytes of one frame.
    pub fn frame_size(&self) -> (n: usize)
        requires
            self.wf(),
        ensures
            n == self@.frame(),
    {
        self.size / BUFFER_COUNT
    }

    /// Copies `pixels`, given as red, green, blue, alpha, into the slot
    /// under the cursor as blue, green, red, alpha, which is what the
    /// compositor reads as `Argb8888`. Whole pixels only: up to three bytes
    /// left over at the end of `pixels` are not written. All other memory
    /// is untouched.
    ///
    /// Must not be called while the compositor owns the slot.
    pub fn write_pixels(&mut self, pixels: &[u8])
        requires
            old(self).wf(),
            old(self)@.writable(),
            pixels@.len() <= old(self)@.frame(),
        ensures
            final(self).wf(),
            final(self)@ == (PoolView {
                bytes: reordered(
                    old(self)@.bytes,
                    old(self)@.cursor * old(self)@.frame(),
                    pixels@,
                    pixels@.len() as int / 4,
                ),
                ..old(self)@
            }),
            forall|i: int|
                0 <= i < pixels@.len() / 4 ==> shown_pixel(
                    final(self)@.bytes,
                    old(self)@.cursor * old(self)@.frame(),
                    i,
                ) == #[trigger] source_pixel(pixels@, i),
    {
        let frame: usize = self.size / BUFFER_COUNT;
        assert(self.current_index as int * frame as int + frame as int <= 2 * frame as int)
            by (nonlinear_arith)
            requires
                0 <= self.current_index as int <= 1,
                0 <= frame as int,
        ;
        let base: usize = self.current_index * frame;
        let count: usize = pixels.len() / 4;
        let ghost before = mapped_bytes(self.mmap);
        let ghost start = base as int;
        let total: usize = mapped_len(&self.mmap);
        let mut i: usize = 0;
        while i < count
            invariant
                0 <= i <= count,
                count == pixels@.len() / 4,
                start == base,
                base + pixels@.len() <= before.len(),
                before.len() <= usize::MAX,
                mapped_bytes(self.mmap) == reordered(before, start, pixels@, i as int),
                self.id == old(self).id,
                self.size == old(self).size,
                self.width == old(self).width,
                self.height == old(self).height,
                self.current_index == old(self).current_index,
                self.buffers == old(self).buffers,
                self.pool == old(self).pool,
                self.stride == old(self).stride,
            decreases count - i,
        {
            let at: usize = base + 4 * i;
            let ghost now = mapped_bytes(self.mmap);
            mapped_store(&mut self.mmap, at, pixels[4 * i + 2]);
            mapped_store(&mut self.mmap, at + 1, pixels[4 * i + 1]);
            mapped_store(&mut self.mmap, at + 2, pixels[4 * i]);
            mapped_store(&mut self.mmap, at + 3, pixels[4 * i + 3]);
            proof {
                let after = mapped_bytes(self.mmap);
                let want = reordered(before, start, pixels@, i as int + 1);
                assert(after.len() == want.len());
                assert forall|k: int| 0 <= k < after.len() implies after[k] == want[k] by {
                    if start + 4 * i <= k < start + 4 * i + 4 {
                        let c = k - (start + 4 * i);
                        assert((k - start) / 4 == i as int && (k - start) % 4 == c)
                            by (nonlinear_arith)
                            requires
                                k - start == 4 * i + c,
                                0 <= c < 4,
                                0 <= i,
                        ;
                    } else {
                        assert(after[k] == now[k]);
                    }
                }
                assert(after =~= want);
            }
            i += 1;
        }
        proof {
            assert(reordered(before, start, pixels@, 0) =~= before);
            assert forall|j: int| 0 <= j < pixels@.len() / 4 implies shown_pixel(
                mapped_bytes(self.mmap),
                start,
                j,
            ) == #[trigger] source_pixel(pixels@, j) by {
                lemma_reorder_lossless(before, start, pixels@, j);
            }
        }
    }

    /// Creates the buffer of the next free slot, and the backing pool
    /// object first where it does not exist yet.
    fn create_buffer(&mut self) -> (r: (Buffer, Vec<Request>))
        requires
            old(self).wf(),
            old(self)@.buffers.len() < BUFFER_COUNT,
        ensures
            final(self).wf(),
            r.0 == old(self)@.next_buffer(),
            r.1@ == old(self)@.creation_requests(),
            final(self)@ == (PoolView {
                buffers: old(self)@.buffers.push(r.0),
                pool_created: true,
                ..old(self)@
            }),
    {
        let mut requests: Vec<Request> = Vec::new();
        let frame: usize = self.size / BUFFER_COUNT;
        if !self.pool {
            requests.push(Request::CreatePool { pool: self.id, size: self.size as i32 });
            self.pool = true;
        }
        let index: usize = self.buffers.len();
        let handle: u32 = self.id + 1 + index as u32;
        assert(index as int * frame as int <= frame as int) by (nonlinear_arith)
            requires
                0 <= index as int <= 1,
                0 <= frame as int,
        ;
        let offset: usize = index * frame;
        requests.push(
            Request::CreateBuffer {
                pool: self.id,
                buffer: handle,
                offset: offset as i32,
                width: self.width,
                height: self.height,
                stride: self.stride,
                format: Format::Argb8888,
            },
        );
        let buffer = Buffer::new(self.width as u32, self.height as u32, handle);
        self.buffers.push(buffer);
        proof {
            assert(requests@ =~= old(self)@.creation_requests());
            assert forall|i: int| 0 <= i < self@.buffers.len() implies {
                &&& (#[trigger] self@.buffers[i]).buffer as int == self@.id as int + 1 + i
                &&& self@.buffers[i].width as int == self@.width as int
                &&& self@.buffers[i].height as int == self@.height as int
            } by {
                if i < old(self)@.buffers.len() {
                    assert(self@.buffers[i] == old(self)@.buffers[i]);
                }
            }
        }
        (buffer, requests)
    }

    /// Chooses the buffer to write next and puts the cursor on its slot.
    ///
    /// The first released buffer is taken, in slot order. If none is
    /// released and a slot is free, a buffer is created for it; the
    /// requests that create it, and the backing pool object before the
    /// first buffer, come with the result. If none is released and no slot
    /// is free, the pool stays as it is and nothing is returned: the caller
    /// waits for a release.
    pub fn get_buffer(&mut self) -> (r: Option<(Buffer, Vec<Request>)>)
        requires
            old(self).wf(),
        ensures
            final(self).wf(),
            final(self)@ == old(self)@.after_get(),
            match r {
                Some((buffer, requests)) => old(self)@.got() == Some((buffer, requests@)),
                None => old(self)@.got() is None,
            },
            r is Some ==> final(self)@.writable(),
    {
        let mut i: usize = 0;
        while i < self.buffers.len()
            invariant
                0 <= i <= self.buffers.len(),
                *self == *old(self),
                old(self).wf(),
                forall|j: int| 0 <= j < i ==> !(#[trigger] self.buffers@[j]).released,
            decreases self.buffers.len() - i,
        {
            if self.buffers[i].released {
                proof {
                    assert(is_first_released(self@.buffers, i as int));
                    let chosen = choose|k: int| is_first_released(self@.buffers, k);
                    lemma_first_released_unique(self@.buffers, chosen, i as int);
                }
                self.current_index = i;
                return Some((self.buffers[i], Vec::new()));
            }
            i += 1;
        }
        assert(none_released(self@.buffers));
        if self.buffers.len() < BUFFER_COUNT {
            let index: usize = self.buffers.len();
            let (buffer, requests) = self.create_buffer();
            self.current_index = index;
            Some((buffer, requests))
        } else {
            None
        }
    }

    /// Sets the released flag of the buffer with handle `buffer`, if it is
    /// one of the pool's, and says whether it is.
    fn mark(&mut self, buffer: u32, released: bool) -> (found: bool)
        requires
            old(self).wf(),
        ensures
            final(self).wf(),
            found == old(self)@.owns(buffer),
            final(self)@ == old(self)@.marked(buffer, released),
    {
        let mut found = false;
        let mut i: usize = 0;
        while i < self.buffers.len()
            invariant
                0 <= i <= self.buffers.len(),
                self.buffers.len() == old(self).buffers.len(),
                self.id == old(self).id,
                self.mmap == old(self).mmap,
                self.size == old(self).size,
                self.width == old(self).width,
                self.height == old(self).height,
                self.current_index == old(self).current_index,
                self.pool == old(self).pool,
                self.stride == old(self).stride,
                forall|j: int|
                    0 <= j < i ==> #[trigger] self.buffers@[j] == old(self)@.marked(
                        buffer,
                        released,
                    ).buffers[j],
                forall|j: int|
                    i <= j < self.buffers.len() ==> #[trigger] self.buffers@[j] == old(
                        self,
                    ).buffers@[j],
                found == exists|j: int|
                    0 <= j < i && (#[trigger] old(self).buffers@[j]).buffer == buffer,
            decreases self.buffers.len() - i,
        {
            if self.buffers[i].buffer == buffer {
                let mut changed = self.buffers[i];
                changed.set_released(released);
                self.buffers.set(i, changed);
                found = true;
            }
            i += 1;
        }
        proof {
            assert(self@.buffers =~= old(self)@.marked(buffer, released).buffers);
        }
        found
    }

    /// Records that the compositor released the buffer with handle
    /// `buffer`: the buffer may be written and chosen again. Returns whether
    /// the buffer is one of the pool's; if it is not, nothing changes.
    pub fn mark_released(&mut self, buffer: u32) -> (found: bool)
        requires
            old(self).wf(),
        ensures
            final(self).wf(),
            found == old(self)@.owns(buffer),
            final(self)@ == old(self)@.marked(buffer, true),
    {
        self.mark(buffer, true)
    }

    /// Records that the buffer with handle `buffer` was handed to a
    /// surface: from now on the compositor owns it. Returns whether the
    /// buffer is one of the pool's; if it is not, nothing changes.
    pub fn mark_attached(&mut self, buffer: u32) -> (found: bool)
        requires
            old(self).wf(),
        ensures
            final(self).wf(),
            found == old(self)@.owns(buffer),
            final(self)@ == old(self)@.marked(buffer, false),
    {
        self.mark(buffer, false)
    }

    /// Takes the pool down: returns the requests that destroy its buffers
    /// and its backing pool object. The shared memory is unmapped as the
    /// pool is dropped.
    pub fn teardown(self) -> (requests: Vec<Request>)
        requires
            self.wf(),
        ensures
            requests@ == self@.teardown_requests(),
    {
        let mut requests: Vec<Request> = Vec::new();
        let mut i: usize = 0;
        while i < self.buffers.len()
            invariant
                0 <= i <= self.buffers.len(),
                requests@ == Seq::new(
                    i as nat,
                    |k: int| Request::DestroyBuffer { buffer: self.buffers@[k].buffer },
                ),
            decreases self.buffers.len() - i,
        {
            requests.push(Request::DestroyBuffer { buffer: self.buffers[i].buffer });
            assert(requests@ =~= Seq::new(
                (i + 1) as nat,
                |k: int| Request::DestroyBuffer { buffer: self.buffers@[k].buffer },
            ));
            i += 1;
        }
        if self.pool {
            requests.push(Request::DestroyPool { pool: self.id });
        }
        assert(requests@ =~= self@.teardown_requests());
        requests
    }

    /// Handle of the backing pool object.
    pub fn id(&self) -> (id: u32)
        ensures
            id == self@.id,
    {
        self.id
    }

    pub fn width(&self) -> (w: i32)
        ensures
            w == self@.width,
    {
        self.width
    }

    pub fn height(&self) -> (h: i32)
        ensures
            h == self@.height,
    {
        self.height
    }

    /// The slot that `write_pixels` writes into.
    pub fn current_index(&self) -> (i: usize)
        ensures
            i == self@.cursor,
    {
        self.current_index
    }

    /// Number of buffers created so far.
    pub fn buffer_count(&self) -> (n: usize)
        ensures
            n == self@.buffers.len(),
    {
        self.buffers.len()
    }

    /// The buffer in slot `index`, if one was created.
    pub fn buffer_at(&self, index: usize) -> (b: Option<Buffer>)
        ensures
            b == if index < self@.buffers.len() {
                Some(self@.buffers[index as int])
            } else {
                None::<Buffer>
            },
    {
        if index < self.buffers.len() {
            Some(self.buffers[index])
        } else {
            None
        }
    }

    /// The byte at `index` of the shared memory, if there is one.
    pub fn byte_at(&self, index: usize) -> (b: Option<u8>)
        ensures
            b == if index < self@.bytes.len() {
                Some(self@.bytes[index as int])
            } else {
                None::<u8>
            },
    {
        if index < mapped_len(&self.mmap) {
            Some(mapped_load(&self.mmap, index))
        } else {
            None
        }
    }
}

} // verus!
