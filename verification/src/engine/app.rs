use crate::display::monitor::Monitor;
use crate::engine::backend::{LayerSurface, SurfaceInput, SurfaceView};
use crate::engine::buffer::Buffer;
use crate::engine::cache::{Cache, CacheKey};
use crate::engine::mapping::mapped_bytes;
use crate::engine::pool::{
    frame_len, geometry_ok, region_size, reordered, BufferPool, PoolView, BUFFER_COUNT,
};
use crate::engine::protocol::{Event, Request};
use crate::image::loader::{
    count, counted, decoded_ok, image_len, nearest_bytes, resampled, scale_plan, ImageLoader,
    LoaderView, ScalePlan,
};
use crate::utils::error::{WallpaperError, WallpaperResult};
use crate::image::transform::ScalingMode;
use crate::utils::text::{copy_text, decimal_bytes, is_decimal_of, text_bytes};
use crate::utils::wayland::{
    has_surface, routed, routed_requests, surface_position, with_surface, SessionView,
    WaylandState,
};
use memmap2::MmapMut;
use vstd::prelude::*;
use vstd::slice::slice_to_vec;
use vstd::string::*;

verus! {

/// Number of roundtrips after which the wait for configured surfaces ends,
/// whether all surfaces are configured or not.
pub const CONFIGURE_ATTEMPTS: u32 = 10;

/// What the orchestrator knows, as plain values.
pub struct AppView {
    /// The outputs as they were when the surfaces were created.
    pub monitors: Seq<Monitor>,
    /// The image applied last.
    pub current_wallpaper: Option<Seq<char>>,
    pub session: SessionView,
    /// The buffer pools; the pool at index `i` serves the monitor at `i`.
    pub pools: Seq<PoolView>,
    /// The rendered buffers by image and size.
    pub cache: Map<(Seq<char>, u32, u32), Buffer>,
    pub loader: LoaderView,
    /// How often an image was resampled.
    pub resamples: u64,
    /// Roundtrips spent waiting for configured surfaces.
    pub attempts: u32,
}

/// The pools after the buffer with handle `buffer` had its released flag
/// set to `released` in the pool that owns it.
pub open spec fn marked_pools(pools: Seq<PoolView>, buffer: u32, released: bool) -> Seq<PoolView> {
    Seq::new(pools.len(), |j: int| pools[j].marked(buffer, released))
}

/// Whether a monitor is among those that a call is for: all monitors, or
/// the one announced under the name `only`.
pub open spec fn chosen(only: Option<u32>, monitor: Monitor) -> bool {
    match only {
        Some(name) => monitor.name == name,
        None => true,
    }
}

/// Handle of the pool of the monitor at `index`; its buffers have the
/// handles that follow.
pub open spec fn pool_handle(index: int) -> int {
    index * (BUFFER_COUNT as int + 1)
}

/// Why an output cannot be given a buffer.
pub enum RenderFailure {
    /// The output has no size yet.
    NoSize,
    /// The image is not among the decoded images.
    NotLoaded,
    /// The image has no pixels.
    NothingToSample,
    /// The scaled image cannot be allocated.
    TooLarge,
    /// No pool was installed for the output.
    NoPool,
    /// The compositor holds every buffer of the pool.
    Busy,
}

/// Whether `e` is the error that reports `failure`.
pub open spec fn reports(e: WallpaperError, failure: RenderFailure) -> bool {
    match failure {
        RenderFailure::NoSize => e is InvalidMonitor,
        RenderFailure::NotLoaded => e is Image,
        RenderFailure::NothingToSample => e is Image,
        RenderFailure::TooLarge => e is Memory,
        RenderFailure::NoPool => e is Memory,
        RenderFailure::Busy => e is Memory,
    }
}

/// Whether `scaled` is what `scale_image` makes of `image` for a target of
/// `width` by `height` pixels: it has the bytes of the target, and they are
/// those of the image where it is copied, `nearest_bytes` where it is
/// brought down and `resampled` where it is enlarged.
pub open spec fn scaled_as(image: (u32, u32, Seq<u8>), width: u32, height: u32, scaled: Seq<u8>) -> bool {
    &&& scaled.len() == image_len(width, height)
    &&& scale_plan(image, width, height) is Copy ==> scaled == image.2
    &&& scale_plan(image, width, height) is Shrink ==> scaled == nearest_bytes(image, width, height)
    &&& scale_plan(image, width, height) is Enlarge ==> scaled == resampled(image, width, height)
}

impl AppView {
    /// Whether the monitor at `i` has a size.
    pub open spec fn has_size(self, i: int) -> bool {
        self.monitors[i].width > 0 && self.monitors[i].height > 0
    }

    /// What a buffer of `path` for the monitor at `i` is filed under.
    pub open spec fn key(self, path: Seq<char>, i: int) -> (Seq<char>, u32, u32) {
        (path, self.monitors[i].width as u32, self.monitors[i].height as u32)
    }

    /// Whether the cache holds a buffer of `path` for the monitor at `i`.
    pub open spec fn hit(self, path: Seq<char>, i: int) -> bool {
        self.has_size(i) && self.cache.contains_key(self.key(path, i))
    }

    /// Why the monitor at `i` cannot be given a buffer of `path`, if it
    /// cannot.
    pub open spec fn failure(self, path: Seq<char>, i: int) -> Option<RenderFailure> {
        if !self.has_size(i) {
            Some(RenderFailure::NoSize)
        } else if self.cache.contains_key(self.key(path, i)) {
            None
        } else if !self.loader.images.contains_key(path) {
            Some(RenderFailure::NotLoaded)
        } else {
            match scale_plan(
                self.loader.images[path],
                self.monitors[i].width as u32,
                self.monitors[i].height as u32,
            ) {
                ScalePlan::Empty => Some(RenderFailure::NothingToSample),
                ScalePlan::TooLarge => Some(RenderFailure::TooLarge),
                _ => if i >= self.pools.len() {
                    Some(RenderFailure::NoPool)
                } else if self.pools[i].chosen_slot() is None {
                    Some(RenderFailure::Busy)
                } else {
                    None
                },
            }
        }
    }

    /// Whether rendering `path` for the monitor at `i` resamples the image.
    pub open spec fn resamples_for(self, path: Seq<char>, i: int) -> bool {
        self.has_size(i) && !self.hit(path, i) && self.loader.images.contains_key(path)
    }

    /// The buffer that shows `path` on the monitor at `i`: the one in the
    /// cache, or else the one that the monitor's pool hands out.
    pub open spec fn buffer_for(self, path: Seq<char>, i: int) -> Buffer {
        if self.hit(path, i) {
            self.cache[self.key(path, i)]
        } else {
            match self.pools[i].got() {
                Some((buffer, _)) => buffer,
                None => self.pools[i].next_buffer(),
            }
        }
    }

    /// The requests that create the buffer for the monitor at `i`, if it
    /// has to be created.
    pub open spec fn render_requests(self, path: Seq<char>, i: int) -> Seq<Request> {
        if self.hit(path, i) {
            Seq::empty()
        } else {
            match self.pools[i].got() {
                Some((_, requests)) => requests,
                None => Seq::empty(),
            }
        }
    }

    /// The pool of the monitor at `i` after a buffer was rendered in it
    /// that holds `scaled`.
    pub open spec fn rendered_pool(self, i: int, scaled: Seq<u8>) -> PoolView {
        let chosen = self.pools[i].after_get();
        PoolView {
            bytes: reordered(
                chosen.bytes,
                chosen.cursor * chosen.frame(),
                scaled,
                scaled.len() as int / 4,
            ),
            ..chosen
        }
    }

    /// Whether the monitor at `i` is among those that a call is for and
    /// cannot be given a buffer of `path`.
    pub open spec fn fails_at(self, path: Seq<char>, only: Option<u32>, i: int) -> bool {
        chosen(only, self.monitors[i]) && self.failure(path, i) is Some
    }

    /// Whether the monitor at `i` is the first that fails.
    pub open spec fn is_first_failure(self, path: Seq<char>, only: Option<u32>, i: int) -> bool {
        &&& 0 <= i < self.monitors.len()
        &&& self.fails_at(path, only, i)
        &&& forall|j: int| 0 <= j < i ==> !#[trigger] self.fails_at(path, only, j)
    }

    /// Whether every monitor that a call is for can be given a buffer.
    pub open spec fn all_ready(self, path: Seq<char>, only: Option<u32>) -> bool {
        forall|i: int| 0 <= i < self.monitors.len() ==> !#[trigger] self.fails_at(path, only, i)
    }

    /// The position of the first monitor that fails.
    pub open spec fn first_failure(self, path: Seq<char>, only: Option<u32>) -> int {
        choose|i: int| self.is_first_failure(path, only, i)
    }

    /// The count of resamplings after the first `n` monitors were served.
    pub open spec fn resamples_upto(self, path: Seq<char>, only: Option<u32>, n: int) -> u64
        decreases n,
    {
        if n <= 0 {
            self.resamples
        } else {
            let before = self.resamples_upto(path, only, n - 1);
            if chosen(only, self.monitors[n - 1]) && self.resamples_for(path, n - 1) {
                counted(before)
            } else {
                before
            }
        }
    }

    /// The requests that create the buffers of the first `n` monitors.
    pub open spec fn render_trace(self, path: Seq<char>, only: Option<u32>, n: int) -> Seq<Request>
        decreases n,
    {
        if n <= 0 {
            Seq::empty()
        } else {
            let before = self.render_trace(path, only, n - 1);
            if chosen(only, self.monitors[n - 1]) {
                before + self.render_requests(path, n - 1)
            } else {
                before
            }
        }
    }

    /// The buffers that show `path`, monitor by monitor; none for a
    /// monitor that the call is not for.
    pub open spec fn buffers_for(self, path: Seq<char>, only: Option<u32>) -> Seq<Option<Buffer>> {
        Seq::new(
            self.monitors.len(),
            |i: int|
                if chosen(only, self.monitors[i]) {
                    Some(self.buffer_for(path, i))
                } else {
                    None
                },
        )
    }

    /// Whether `after` is the pool of the monitor at `j` once that monitor
    /// was served: a pool in which a buffer was rendered if the monitor is
    /// among those the call is for and the cache had no buffer for it, the
    /// pool as it was otherwise.
    pub open spec fn pool_served(
        self,
        after: PoolView,
        path: Seq<char>,
        only: Option<u32>,
        j: int,
    ) -> bool {
        if chosen(only, self.monitors[j]) && !self.hit(path, j) {
            exists|scaled: Seq<u8>|
                {
                    &&& scaled_as(
                        self.loader.images[path],
                        self.monitors[j].width as u32,
                        self.monitors[j].height as u32,
                        scaled,
                    )
                    &&& #[trigger] self.rendered_pool(j, scaled) == after
                }
        } else {
            after == self.pools[j]
        }
    }

    /// Whether `mid` is the orchestrator after every monitor that the call
    /// is for was given its buffer: the pools were served, the resamplings
    /// counted, and nothing else changed.
    pub open spec fn rendered_to(self, mid: AppView, path: Seq<char>, only: Option<u32>) -> bool {
        &&& mid == (AppView {
            pools: mid.pools,
            resamples: self.resamples_upto(path, only, self.monitors.len() as int),
            ..self
        })
        &&& mid.pools.len() == self.pools.len()
        &&& forall|j: int|
            0 <= j < self.pools.len() ==> self.pool_served(#[trigger] mid.pools[j], path, only, j)
    }

    /// Whether the monitor at `i` has a surface that takes buffers: one is
    /// filed under the monitor's name and the compositor has not closed it.
    pub open spec fn accepts(self, i: int) -> bool {
        let name = self.monitors[i].name;
        has_surface(self.session.surfaces, name) && !self.session.surfaces[surface_position(
            self.session.surfaces,
            name,
        )].1.is_closed()
    }

    /// The buffer that loses its place when `buffer` is handed to the
    /// surface of the monitor at `i`: another buffer that waited there for
    /// the first configure.
    pub open spec fn displaced(self, i: int, buffer: Buffer) -> Option<u32> {
        let surface = self.session.surfaces[surface_position(
            self.session.surfaces,
            self.monitors[i].name,
        )].1;
        match surface.pending_buffer {
            Some(waiting) => if !surface.is_configured() && waiting.buffer != buffer.buffer {
                Some(waiting.buffer)
            } else {
                None
            },
            None => None,
        }
    }

    /// The orchestrator after `buffer` was handed to the surface of the
    /// monitor at `i`. If the surface takes buffers, it gets the buffer,
    /// the buffer counts as held by the compositor, and a buffer that
    /// loses its place counts as released. Otherwise nothing changes.
    pub open spec fn after_attach(self, i: int, buffer: Buffer) -> AppView {
        if self.accepts(i) {
            let freed = match self.displaced(i, buffer) {
                Some(waiting) => marked_pools(self.pools, waiting, true),
                None => self.pools,
            };
            AppView {
                pools: marked_pools(freed, buffer.buffer, false),
                session: SessionView {
                    surfaces: routed(
                        self.session.surfaces,
                        self.monitors[i].name,
                        SurfaceInput::Attach { buffer },
                    ),
                    ..self.session
                },
                ..self
            }
        } else {
            self
        }
    }

    /// What the surface of the monitor at `i` sends when `buffer` is handed
    /// to it.
    pub open spec fn attach_requests(self, i: int, buffer: Buffer) -> Seq<Request> {
        if self.accepts(i) {
            routed_requests(
                self.session.surfaces,
                self.monitors[i].name,
                SurfaceInput::Attach { buffer },
            )
        } else {
            Seq::empty()
        }
    }

    /// The orchestrator after the buffers of the first `n` monitors were
    /// handed to their surfaces, one after the other.
    pub open spec fn attached_upto(self, buffers: Seq<Option<Buffer>>, n: int) -> AppView
        decreases n,
    {
        if n <= 0 {
            self
        } else {
            let before = self.attached_upto(buffers, n - 1);
            match buffers[n - 1] {
                Some(buffer) => before.after_attach(n - 1, buffer),
                None => before,
            }
        }
    }

    /// What the surfaces of the first `n` monitors send when their buffers
    /// are handed to them, one after the other.
    pub open spec fn attach_trace(self, buffers: Seq<Option<Buffer>>, n: int) -> Seq<Request>
        decreases n,
    {
        if n <= 0 {
            Seq::empty()
        } else {
            let head = self.attach_trace(buffers, n - 1);
            match buffers[n - 1] {
                Some(buffer) => head + self.attached_upto(buffers, n - 1).attach_requests(
                    n - 1,
                    buffer,
                ),
                None => head,
            }
        }
    }

    /// The cache after the buffers of the first `n` monitors were filed
    /// under `path` and the sizes of their monitors, a later one in place
    /// of an earlier one under the same key.
    pub open spec fn cache_upto(self, path: Seq<char>, buffers: Seq<Option<Buffer>>, n: int) -> Map<
        (Seq<char>, u32, u32),
        Buffer,
    >
        decreases n,
    {
        if n <= 0 {
            self.cache
        } else {
            let before = self.cache_upto(path, buffers, n - 1);
            match buffers[n - 1] {
                Some(buffer) => if self.has_size(n - 1) {
                    before.insert(self.key(path, n - 1), buffer)
                } else {
                    before
                },
                None => before,
            }
        }
    }

    /// The orchestrator after `buffers` were handed to the surfaces and
    /// filed in the cache, and `path` was noted as the image on show.
    pub open spec fn finished(self, path: Seq<char>, buffers: Seq<Option<Buffer>>) -> AppView {
        let n = self.monitors.len() as int;
        AppView {
            cache: self.cache_upto(path, buffers, n),
            current_wallpaper: Some(path),
            ..self.attached_upto(buffers, n)
        }
    }

    /// The orchestrator after one event of the compositor: the session
    /// takes the event, and a released buffer counts as released in its
    /// pool.
    pub open spec fn after_event(self, event: Event) -> AppView {
        AppView {
            session: self.session.after(event),
            pools: match event {
                Event::BufferRelease { buffer } => marked_pools(self.pools, buffer, true),
                _ => self.pools,
            },
            ..self
        }
    }

    /// Whether the monitor at `i` is among those that a call is for and the
    /// cache holds no buffer of `path` for it.
    pub open spec fn misses_at(self, path: Seq<char>, only: Option<u32>, i: int) -> bool {
        chosen(only, self.monitors[i]) && !self.hit(path, i)
    }

    /// Whether the decoded image of `path` is needed and missing for the
    /// monitors that a call is for.
    pub open spec fn needs_source(self, path: Seq<char>, only: Option<u32>) -> bool {
        !self.loader.images.contains_key(path) && exists|i: int|
            0 <= i < self.monitors.len() && #[trigger] self.misses_at(path, only, i)
    }

    /// How many of the first `n` monitors get the image resampled when
    /// `path` is shown on the monitors that a call is for.
    pub open spec fn resamplings(self, path: Seq<char>, only: Option<u32>, n: int) -> nat
        decreases n,
    {
        if n <= 0 {
            0
        } else {
            let before = self.resamplings(path, only, n - 1);
            if chosen(only, self.monitors[n - 1]) && self.resamples_for(path, n - 1) {
                before + 1
            } else {
                before
            }
        }
    }

    /// Whether the cache holds an entry for the monitor at `i` and another
    /// for the monitor at `j`.
    pub open spec fn own_entries(self, path: Seq<char>, i: int, j: int) -> bool {
        &&& self.cache.contains_key(self.key(path, i))
        &&& self.cache.contains_key(self.key(path, j))
        &&& self.key(path, i) != self.key(path, j)
    }

    /// Whether every buffer in the cache has the size it is filed under.
    pub open spec fn cache_sized(self) -> bool {
        forall|key: (Seq<char>, u32, u32)| #[trigger]
            self.cache.contains_key(key) ==> self.cache[key].width == key.1
                && self.cache[key].height == key.2
    }

    /// Whether `buffer` has the size of the monitor at `i`.
    pub open spec fn fits(self, i: int, buffer: Buffer) -> bool {
        buffer.width as int == self.monitors[i].width as int && buffer.height as int
            == self.monitors[i].height as int
    }

    /// Whether every buffer of `buffers` has the size of its monitor.
    pub open spec fn all_fit(self, buffers: Seq<Option<Buffer>>) -> bool {
        forall|i: int|
            0 <= i < buffers.len() ==> ((#[trigger] buffers[i]) matches Some(buffer) ==> self.fits(
                i,
                buffer,
            ))
    }

    /// What holds of every orchestrator: the session is valid, the decoded
    /// images are whole, every buffer in the cache has the size it is filed
    /// under, and every pool is valid, has the handle of its place and the
    /// size of its monitor.
    pub open spec fn valid(self) -> bool {
        &&& self.session.valid()
        &&& self.loader.valid()
        &&& self.cache_sized()
        &&& self.pools.len() <= self.monitors.len()
        &&& forall|i: int|
            0 <= i < self.pools.len() ==> {
                &&& (#[trigger] self.pools[i]).valid()
                &&& self.pools[i].id as int == pool_handle(i)
                &&& self.pools[i].width == self.monitors[i].width
                &&& self.pools[i].height == self.monitors[i].height
            }
    }
}

/// What the caller does next while surfaces are awaited.
#[derive(Debug, Clone, Copy, PartialEq, Eq, Structural)]
pub enum HandshakeStep {
    /// Make one more roundtrip, then ask again.
    Roundtrip,
    /// All surfaces are configured.
    Configured,
    /// The attempts are used up. Surfaces that are not configured keep
    /// what was handed to them and show it if a configure comes later.
    Exhausted,
}

/// The views of pools, pool by pool.
pub closed spec fn pool_views(pools: Seq<BufferPool>) -> Seq<PoolView> {
    Seq::new(pools.len(), |i: int| pools[i]@)
}

/// The orchestrator: it owns the session, one buffer pool for each output,
/// the cache of rendered buffers and the decoded images, and turns "show
/// this image" into the requests that do it.
pub struct App {
    monitors: Vec<Monitor>,
    current_wallpaper: Option<String>,
    wayland_state: WaylandState,
    pools: Vec<BufferPool>,
    cache: Cache,
    loader: ImageLoader,
    resamples: u64,
    attempts: u32,
}

impl View for App {
    type V = AppView;

    closed spec fn view(&self) -> AppView {
        AppView {
            monitors: self.monitors@,
            current_wallpaper: match self.current_wallpaper {
                Some(path) => Some(path@),
                None => None,
            },
            session: self.wayland_state@,
            pools: pool_views(self.pools@),
            cache: self.cache@,
            loader: self.loader@,
            resamples: self.resamples,
            attempts: self.attempts,
        }
    }
}

impl App {
    /// What holds of every orchestrator between calls.
    pub open spec fn wf(&self) -> bool {
        self.consistent() && self@.valid()
    }

    /// The parts of the orchestrator are well formed.
    pub closed spec fn consistent(&self) -> bool {
        &&& self.cache.wf()
        &&& forall|i: int| 0 <= i < self.pools@.len() ==> (#[trigger] self.pools@[i]).wf()
    }

    /// What an orchestrator knows that knows nothing yet.
    pub open spec fn new_view() -> AppView {
        AppView {
            monitors: Seq::empty(),
            current_wallpaper: None,
            session: SessionView::empty(),
            pools: Seq::empty(),
            cache: Map::empty(),
            loader: LoaderView { images: Map::empty(), decodes: 0 },
            resamples: 0,
            attempts: 0,
        }
    }

    /// An orchestrator that knows nothing yet.
    pub fn new() -> (app: App)
        ensures
            app.wf(),
            app@ == App::new_view(),
    {
        let (state, _) = WaylandState::new();
        let app = App {
            monitors: Vec::new(),
            current_wallpaper: None,
            wayland_state: state,
            pools: Vec::new(),
            cache: Cache::new(),
            loader: ImageLoader::new(),
            resamples: 0,
            attempts: 0,
        };
        assert(app@.pools =~= Seq::<PoolView>::empty());
        app
    }

    /// The session.
    pub fn state(&self) -> (state: &WaylandState)
        ensures
            state@ == self@.session,
    {
        &self.wayland_state
    }

    /// The outputs as they were when the surfaces were created.
    pub fn monitors(&self) -> (monitors: &[Monitor])
        ensures
            monitors@ == self@.monitors,
    {
        self.monitors.as_slice()
    }

    /// The image applied last.
    pub fn current_wallpaper(&self) -> (path: Option<&str>)
        ensures
            match path {
                Some(path) => self@.current_wallpaper == Some(path@),
                None => self@.current_wallpaper is None,
            },
    {
        match &self.current_wallpaper {
            Some(path) => Some(path.as_str()),
            None => None,
        }
    }

    /// How often an image was resampled.
    pub fn resample_count(&self) -> (n: u64)
        ensures
            n == self@.resamples,
    {
        self.resamples
    }

    /// How many decoded images were taken in.
    pub fn decode_count(&self) -> (n: u64)
        ensures
            n == self@.loader.decodes,
    {
        self.loader.decode_count()
    }

    /// Number of rendered buffers in the cache.
    pub fn cache_len(&self) -> (n: usize)
        requires
            self.wf(),
        ensures
            n == self@.cache.dom().len(),
    {
        self.cache.len()
    }

    /// Number of pools installed.
    pub fn pool_count(&self) -> (n: usize)
        ensures
            n == self@.pools.len(),
    {
        self.pools.len()
    }

    /// Takes every pool down, the last one first.
    fn teardown_pools(&mut self) -> (requests: Vec<Request>)
        requires
            old(self).wf(),
        ensures
            final(self).wf(),
            final(self)@ == (AppView { pools: Seq::empty(), ..old(self)@ }),
            requests@ == teardown_all(old(self)@.pools),
    {
        let mut requests: Vec<Request> = Vec::new();
        while self.pools.len() > 0
            invariant
                self.wf(),
                old(self)@.cache_sized(),
                self@ == (AppView { pools: self@.pools, ..old(self)@ }),
                requests@ + teardown_all(self@.pools) == teardown_all(old(self)@.pools),
            decreases self.pools.len(),
        {
            let ghost before = self@.pools;
            let ghost head = requests@;
            assert(self.pools@.last().wf());
            assert(self@.pools.last() == self.pools@.last()@);
            let pool = self.pools.pop().unwrap();
            let mut sent = pool.teardown();
            requests.append(&mut sent);
            proof {
                assert(self@.pools =~= before.drop_last());
                assert(requests@ + teardown_all(self@.pools) =~= head + (
                before.last().teardown_requests() + teardown_all(before.drop_last())));
                assert forall|k: int| 0 <= k < self@.pools.len() implies {
                    &&& (#[trigger] self@.pools[k]).valid()
                    &&& self@.pools[k].id as int == pool_handle(k)
                    &&& self@.pools[k].width == self@.monitors[k].width
                    &&& self@.pools[k].height == self@.monitors[k].height
                } by {
                    assert(self@.pools[k] == before[k]);
                }
            }
        }
        proof {
            assert(self@.pools =~= Seq::<PoolView>::empty());
            assert(requests@ + teardown_all(self@.pools) =~= requests@);
        }
        requests
    }

    /// Starts a session: what is left of an earlier one is taken down,
    /// the registry is asked for, and two roundtrips follow. The first
    /// brings the announcements of the globals, which get bound; the second
    /// brings what the bound outputs say of their geometry and mode.
    pub fn init_wayland(&mut self) -> (requests: Vec<Request>)
        requires
            old(self).wf(),
        ensures
            final(self).wf(),
            final(self)@ == (AppView {
                monitors: Seq::empty(),
                session: SessionView::empty(),
                pools: Seq::empty(),
                attempts: 0,
                ..old(self)@
            }),
            requests@ == teardown_all(old(self)@.pools) + seq![
                Request::GetRegistry,
                Request::Roundtrip,
                Request::Roundtrip,
            ],
    {
        let mut requests = self.teardown_pools();
        let (state, _) = WaylandState::new();
        self.wayland_state = state;
        self.monitors = Vec::new();
        self.attempts = 0;
        requests.push(Request::GetRegistry);
        requests.push(Request::Roundtrip);
        requests.push(Request::Roundtrip);
        assert(requests@ =~= teardown_all(old(self)@.pools) + seq![
            Request::GetRegistry,
            Request::Roundtrip,
            Request::Roundtrip,
        ]);
        requests
    }

    /// Creates the surfaces anew: the pools are taken down, the outputs of
    /// the session become the monitors, and every monitor gets a new
    /// surface under its name, in place of one filed there before. One
    /// roundtrip follows, which brings the first configures.
    ///
    /// Fails with `WaylandProtocol`, and changes nothing, if the compositor
    /// has not announced its compositor global or the layer shell.
    pub fn recreate_surfaces(&mut self) -> (r: WallpaperResult<Vec<Request>>)
        requires
            old(self).wf(),
        ensures
            final(self).wf(),
            match r {
                Ok(requests) => {
                    let monitors = old(self)@.session.monitors;
                    let viewport = old(self)@.session.viewporter is Some;
                    &&& old(self)@.session.compositor is Some
                    &&& old(self)@.session.layer_shell is Some
                    &&& final(self)@ == (AppView {
                        monitors,
                        pools: Seq::empty(),
                        session: SessionView {
                            surfaces: surfaces_upto(
                                old(self)@.session.surfaces,
                                monitors,
                                viewport,
                                monitors.len() as int,
                            ),
                            ..old(self)@.session
                        },
                        attempts: 0,
                        ..old(self)@
                    })
                    &&& requests@ == teardown_all(old(self)@.pools) + creation_trace(
                        monitors,
                        viewport,
                        monitors.len() as int,
                    ) + seq![Request::Roundtrip]
                },
                Err(e) => {
                    &&& e is WaylandProtocol
                    &&& old(self)@.session.compositor is None || old(self)@.session.layer_shell
                        is None
                    &&& final(self)@ == old(self)@
                },
            },
    {
        if self.wayland_state.get_compositor().is_none() {
            return Err(
                WallpaperError::WaylandProtocol(String::from_str("compositor was not announced")),
            );
        }
        if self.wayland_state.get_layer_shell().is_none() {
            return Err(
                WallpaperError::WaylandProtocol(String::from_str("layer shell was not announced")),
            );
        }
        let mut requests = self.teardown_pools();
        let viewport = self.wayland_state.get_viewporter().is_some();
        self.monitors = slice_to_vec(self.wayland_state.get_monitors());
        self.attempts = 0;
        let ghost start = self@;
        let ghost torn = requests@;
        let count: usize = self.monitors.len();
        let mut i: usize = 0;
        while i < count
            invariant
                0 <= i <= count,
                count == start.monitors.len(),
                start.monitors == old(self)@.session.monitors,
                self.wf(),
                start.cache_sized(),
                self@ == (AppView {
                    session: SessionView {
                        surfaces: surfaces_upto(
                            start.session.surfaces,
                            start.monitors,
                            viewport,
                            i as int,
                        ),
                        ..start.session
                    },
                    ..start
                }),
                requests@ == torn + creation_trace(start.monitors, viewport, i as int),
            decreases count - i,
        {
            let monitor = self.monitors[i];
            let mut surface = LayerSurface::new(monitor.name, monitor.output, viewport);
            let mut sent = surface.create();
            requests.append(&mut sent);
            self.wayland_state.add_layer_surface(monitor.name, surface);
            proof {
                assert(requests@ =~= torn + creation_trace(start.monitors, viewport, i as int + 1));
            }
            i += 1;
        }
        requests.push(Request::Roundtrip);
        proof {
            assert(requests@ =~= torn + creation_trace(
                start.monitors,
                viewport,
                start.monitors.len() as int,
            ) + seq![Request::Roundtrip]);
        }
        Ok(requests)
    }

    /// The step after a roundtrip of the wait for configured surfaces. At
    /// least one roundtrip is made; the wait ends when all surfaces are
    /// configured or `CONFIGURE_ATTEMPTS` roundtrips were made.
    pub fn await_configured(&mut self) -> (step: HandshakeStep)
        ensures
            step == handshake_step(old(self)@.attempts, old(self)@.session.all_configured()),
            final(self)@ == (AppView {
                attempts: if step == HandshakeStep::Roundtrip {
                    (old(self)@.attempts + 1) as u32
                } else {
                    old(self)@.attempts
                },
                ..old(self)@
            }),
            old(self).wf() ==> final(self).wf(),
    {
        if self.attempts >= 1 && self.wayland_state.all_surfaces_configured() {
            HandshakeStep::Configured
        } else if self.attempts >= CONFIGURE_ATTEMPTS {
            HandshakeStep::Exhausted
        } else {
            self.attempts = self.attempts + 1;
            HandshakeStep::Roundtrip
        }
    }

    /// Size in bytes of the shared memory for the next pool to install,
    /// which is that of the first output without a pool; nothing if every
    /// output has its pool or that output's size cannot be served.
    pub fn next_pool_size(&self) -> (size: Option<usize>)
        ensures
            size == if self@.pools.len() < self@.monitors.len() && geometry_ok(
                self@.monitors[self@.pools.len() as int].width,
                self@.monitors[self@.pools.len() as int].height,
            ) {
                Some(
                    (BUFFER_COUNT as int * frame_len(
                        self@.monitors[self@.pools.len() as int].width,
                        self@.monitors[self@.pools.len() as int].height,
                    )) as usize,
                )
            } else {
                None::<usize>
            },
    {
        let index: usize = self.pools.len();
        if index < self.monitors.len() {
            region_size(self.monitors[index].width, self.monitors[index].height)
        } else {
            None
        }
    }

    /// Installs the pool of the first output without one, over the memory
    /// `mmap`, and returns the handle of the pool.
    ///
    /// Fails with `InvalidMonitor` if every output has its pool, and with
    /// `Memory` if the output's size cannot be served, the memory is too
    /// short for it, or the handles are used up. Nothing changes then.
    pub fn install_pool(&mut self, mmap: MmapMut) -> (r: WallpaperResult<u32>)
        requires
            old(self).wf(),
        ensures
            final(self).wf(),
            match r {
                Ok(handle) => {
                    let i = old(self)@.pools.len() as int;
                    &&& i < old(self)@.monitors.len()
                    &&& handle as int == pool_handle(i)
                    &&& final(self)@ == (AppView {
                        pools: old(self)@.pools.push(
                            PoolView {
                                id: pool_handle(i) as u32,
                                width: old(self)@.monitors[i].width,
                                height: old(self)@.monitors[i].height,
                                cursor: 0,
                                buffers: Seq::empty(),
                                pool_created: false,
                                bytes: mapped_bytes(mmap),
                            },
                        ),
                        ..old(self)@
                    })
                },
                Err(e) => {
                    let i = old(self)@.pools.len() as int;
                    &&& final(self)@ == old(self)@
                    &&& if i >= old(self)@.monitors.len() {
                        e is InvalidMonitor
                    } else {
                        &&& e is Memory
                        &&& !(geometry_ok(old(self)@.monitors[i].width, old(self)@.monitors[i].height)
                            && pool_handle(i) + BUFFER_COUNT as int <= u32::MAX as int
                            && mapped_bytes(mmap).len() >= BUFFER_COUNT as int * frame_len(
                            old(self)@.monitors[i].width,
                            old(self)@.monitors[i].height,
                        ))
                    }
                },
            },
    {
        let index: usize = self.pools.len();
        if index >= self.monitors.len() {
            return Err(WallpaperError::InvalidMonitor(String::from_str("no output without pool")));
        }
        if index > ((u32::MAX as usize) - BUFFER_COUNT) / (BUFFER_COUNT + 1) {
            return Err(WallpaperError::Memory(String::from_str("no buffer handles left")));
        }
        let id: u32 = (index * (BUFFER_COUNT + 1)) as u32;
        let monitor = self.monitors[index];
        match BufferPool::new(id, monitor.width, monitor.height, mmap) {
            Ok(pool) => {
                self.pools.push(pool);
                proof {
                    assert(self@.pools =~= old(self)@.pools.push(pool@));
                    assert forall|i: int| 0 <= i < self.pools@.len() implies (
                    #[trigger] self.pools@[i]).wf() by {
                        if i < index {
                            assert(self.pools@[i] == old(self).pools@[i]);
                        }
                    }
                    assert forall|i: int| 0 <= i < self@.pools.len() implies {
                        &&& (#[trigger] self@.pools[i]).valid()
                        &&& self@.pools[i].id as int == pool_handle(i)
                        &&& self@.pools[i].width == self@.monitors[i].width
                        &&& self@.pools[i].height == self@.monitors[i].height
                    } by {
                        if i < index {
                            assert(self@.pools[i] == old(self)@.pools[i]);
                        }
                    }
                }
                Ok(id)
            },
            Err(e) => Err(e),
        }
    }

    /// Whether the decoded image of `path` is needed and missing for the
    /// monitors that a call is for: one of them has no buffer of `path` in
    /// the cache, and the image is not among the decoded images.
    pub fn needs_source_for(&self, path: &str, only: Option<u32>) -> (r: bool)
        requires
            self.wf(),
        ensures
            r == self@.needs_source(path@, only),
    {
        if self.loader.is_cached(path) {
            return false;
        }
        let mut i: usize = 0;
        while i < self.monitors.len()
            invariant
                0 <= i <= self.monitors.len(),
                self.wf(),
                !self@.loader.images.contains_key(path@),
                forall|j: int| 0 <= j < i ==> !#[trigger] self@.misses_at(path@, only, j),
            decreases self.monitors.len() - i,
        {
            let monitor = self.monitors[i];
            let wanted = match only {
                Some(name) => monitor.name == name,
                None => true,
            };
            if wanted {
                if monitor.width <= 0 || monitor.height <= 0 {
                    assert(self@.misses_at(path@, only, i as int));
                    return true;
                }
                let key = CacheKey::new(path, monitor.width as u32, monitor.height as u32);
                if self.cache.get(&key).is_none() {
                    assert(self@.misses_at(path@, only, i as int));
                    return true;
                }
            }
            i += 1;
        }
        false
    }

    /// Whether the decoded image of `path` is needed and missing: some
    /// output has no buffer of `path` in the cache, and the image is not
    /// among the decoded images. Then the caller decodes the file and hands
    /// the result to `preload`.
    pub fn needs_source(&self, path: &str) -> (r: bool)
        requires
            self.wf(),
        ensures
            r == self@.needs_source(path@, None),
    {
        self.needs_source_for(path, None)
    }

    /// Whether a command to show `image` asks for the file to be decoded
    /// first: the command would not be refused by `apply` for its scaling
    /// or its monitor, and the decoded image is needed and missing for the
    /// outputs it is for. A command that `apply` refuses needs no decoding.
    pub fn wants_source(&self, image: &str, monitor: Option<&str>, scaling: &str) -> (r: bool)
        requires
            self.wf(),
        ensures
            r == wanted_source(
                self@,
                image@,
                match monitor {
                    Some(selector) => Some(selector@),
                    None => None,
                },
                scaling@,
            ),
    {
        if ScalingMode::from_name(scaling).is_err() {
            return false;
        }
        match monitor {
            Some(selector) => match self.select(selector) {
                Some(name) => self.needs_source_for(image, Some(name)),
                None => false,
            },
            None => self.needs_source_for(image, None),
        }
    }

    /// Takes in the image that a decoder made of the file at `path`; see
    /// `ImageLoader::preload`. Each image is decoded once: a second image
    /// for the same path is not taken.
    pub fn preload(&mut self, path: &str, width: usize, height: usize, pixels: Vec<u8>) -> (r:
        WallpaperResult<()>)
        requires
            old(self).wf(),
        ensures
            final(self).wf(),
            match r {
                Ok(_) => if old(self)@.loader.images.contains_key(path@) {
                    final(self)@ == old(self)@
                } else {
                    &&& decoded_ok(width, height, pixels@.len())
                    &&& final(self)@ == (AppView {
                        loader: LoaderView {
                            images: old(self)@.loader.images.insert(
                                path@,
                                (
                                    width as u32,
                                    height as u32,
                                    pixels@.take(width as int * height as int * 4),
                                ),
                            ),
                            decodes: counted(old(self)@.loader.decodes),
                        },
                        ..old(self)@
                    })
                },
                Err(e) => {
                    &&& e is Memory
                    &&& !old(self)@.loader.images.contains_key(path@)
                    &&& !decoded_ok(width, height, pixels@.len())
                    &&& final(self)@ == old(self)@
                },
            },
    {
        match self.loader.preload(path, width, height, pixels) {
            Ok(_) => Ok(()),
            Err(e) => Err(e),
        }
    }

    /// Gets the buffer that shows `path` on the monitor at `index`: the one
    /// in the cache, or else a buffer of the monitor's pool, filled with the
    /// decoded image brought to the monitor's size. Only the monitor's own
    /// pool and the count of resamplings change; nothing is attached and
    /// nothing is filed in the cache.
    ///
    /// Returns the buffer and the requests that create it, or the error
    /// that `failure` names.
    pub fn render_output(&mut self, path: &str, index: usize) -> (r: WallpaperResult<
        (Buffer, Vec<Request>),
    >)
        requires
            old(self).wf(),
            index < old(self)@.monitors.len(),
        ensures
            final(self).wf(),
            final(self)@.pools.len() == old(self)@.pools.len(),
            forall|j: int|
                0 <= j < old(self)@.pools.len() && j != index ==> #[trigger] final(self)@.pools[j]
                    == old(self)@.pools[j],
            final(self)@ == (AppView {
                pools: final(self)@.pools,
                resamples: if old(self)@.resamples_for(path@, index as int) {
                    counted(old(self)@.resamples)
                } else {
                    old(self)@.resamples
                },
                ..old(self)@
            }),
            match old(self)@.failure(path@, index as int) {
                Some(failure) => {
                    &&& r matches Err(e)
                    &&& reports(e, failure)
                    &&& final(self)@.pools == old(self)@.pools
                },
                None => {
                    &&& r matches Ok((buffer, requests))
                    &&& buffer == old(self)@.buffer_for(path@, index as int)
                    &&& requests@ == old(self)@.render_requests(path@, index as int)
                    &&& if old(self)@.hit(path@, index as int) {
                        final(self)@.pools == old(self)@.pools
                    } else {
                        old(self)@.pool_served(
                            final(self)@.pools[index as int],
                            path@,
                            None,
                            index as int,
                        )
                    }
                },
            },
    {
        let monitor = self.monitors[index];
        if monitor.width <= 0 || monitor.height <= 0 {
            return Err(WallpaperError::InvalidMonitor(String::from_str("output has no size")));
        }
        let width: u32 = monitor.width as u32;
        let height: u32 = monitor.height as u32;
        let key = CacheKey::new(path, width, height);
        if let Some(buffer) = self.cache.get(&key) {
            return Ok((*buffer, Vec::new()));
        }
        let image = match self.loader.cached(path) {
            Some(image) => image,
            None => {
                return Err(WallpaperError::Image(String::from_str("image was not loaded")));
            },
        };
        self.resamples = count(self.resamples);
        let scaled = match ImageLoader::scale_image(&image, width, height) {
            Ok(scaled) => scaled,
            Err(e) => {
                return Err(e);
            },
        };
        if index >= self.pools.len() {
            return Err(WallpaperError::Memory(String::from_str("no buffer pool")));
        }
        assert(self@.pools[index as int] == self.pools@[index as int]@);
        assert(self.pools@[index as int].wf());
        let got = self.pools[index].get_buffer();
        match got {
            None => {
                proof {
                    assert(self@.pools =~= old(self)@.pools);
                }
                Err(WallpaperError::Memory(String::from_str("all buffers are in use")))
            },
            Some((buffer, requests)) => {
                assert(frame_len(monitor.width, monitor.height) == image_len(width, height));
                self.pools[index].write_pixels(scaled.data.as_slice());
                proof {
                    assert(self@.pools[index as int] == old(self)@.rendered_pool(
                        index as int,
                        scaled.data@,
                    ));
                    assert forall|j: int|
                        0 <= j < old(self)@.pools.len() && j != index implies #[trigger] self@.pools[j]
                        == old(self)@.pools[j] by {
                        assert(self.pools@[j] == old(self).pools@[j]);
                    }
                    assert forall|i: int| 0 <= i < self.pools@.len() implies (
                    #[trigger] self.pools@[i]).wf() by {
                        if i != index {
                            assert(self.pools@[i] == old(self).pools@[i]);
                        }
                    }
                    assert forall|i: int| 0 <= i < self@.pools.len() implies {
                        &&& (#[trigger] self@.pools[i]).valid()
                        &&& self@.pools[i].id as int == pool_handle(i)
                        &&& self@.pools[i].width == self@.monitors[i].width
                        &&& self@.pools[i].height == self@.monitors[i].height
                    } by {
                        if i != index {
                            assert(self@.pools[i] == old(self)@.pools[i]);
                        }
                    }
                }
                Ok((buffer, requests))
            },
        }
    }

    /// Sets the released flag of the buffer with handle `buffer` in the
    /// pool that owns it.
    fn mark_all(&mut self, buffer: u32, released: bool)
        requires
            old(self).wf(),
        ensures
            final(self).wf(),
            final(self)@ == (AppView {
                pools: marked_pools(old(self)@.pools, buffer, released),
                ..old(self)@
            }),
    {
        let mut j: usize = 0;
        while j < self.pools.len()
            invariant
                0 <= j <= self.pools.len(),
                self.pools@.len() == old(self).pools@.len(),
                self.wf(),
                old(self).wf(),
                self@ == (AppView { pools: self@.pools, ..old(self)@ }),
                forall|k: int|
                    0 <= k < j ==> #[trigger] self@.pools[k] == old(self)@.pools[k].marked(
                        buffer,
                        released,
                    ),
                forall|k: int|
                    j <= k < self.pools@.len() ==> #[trigger] self@.pools[k] == old(self)@.pools[k],
            decreases self.pools.len() - j,
        {
            let ghost before = *self;
            assert(self.pools@[j as int].wf());
            assert(self@.pools[j as int] == self.pools@[j as int]@);
            if released {
                self.pools[j].mark_released(buffer);
            } else {
                self.pools[j].mark_attached(buffer);
            }
            proof {
                assert forall|k: int| 0 <= k < self.pools@.len() && k != j implies self.pools@[k]
                    == before.pools@[k] by {}
                assert forall|k: int| 0 <= k < self.pools@.len() implies (
                #[trigger] self.pools@[k]).wf() by {
                    if k != j {
                        assert(self.pools@[k] == before.pools@[k]);
                    }
                }
                assert forall|k: int| 0 <= k < self@.pools.len() implies {
                    &&& (#[trigger] self@.pools[k]).valid()
                    &&& self@.pools[k].id as int == pool_handle(k)
                    &&& self@.pools[k].width == self@.monitors[k].width
                    &&& self@.pools[k].height == self@.monitors[k].height
                } by {
                    if k != j {
                        assert(self@.pools[k] == before@.pools[k]);
                    } else {
                        assert(before@.pools[k].valid());
                    }
                }
                assert forall|k: int| 0 <= k < j + 1 implies #[trigger] self@.pools[k] == old(
                    self,
                )@.pools[k].marked(buffer, released) by {
                    if k < j {
                        assert(self@.pools[k] == before@.pools[k]);
                    }
                }
                assert forall|k: int| j + 1 <= k < self.pools@.len() implies #[trigger] self@.pools[k]
                    == old(self)@.pools[k] by {
                    assert(self@.pools[k] == before@.pools[k]);
                }
            }
            j += 1;
        }
        proof {
            assert(self@.pools =~= marked_pools(old(self)@.pools, buffer, released));
        }
    }

    /// Hands `buffer` to the surface of the monitor at `index`.
    fn attach_one(&mut self, index: usize, buffer: &Buffer) -> (requests: Vec<Request>)
        requires
            old(self).wf(),
            index < old(self)@.monitors.len(),
        ensures
            final(self).wf(),
            final(self)@ == old(self)@.after_attach(index as int, *buffer),
            requests@ == old(self)@.attach_requests(index as int, *buffer),
    {
        let name: u32 = self.monitors[index].name;
        match self.wayland_state.get_layer_surface(name) {
            Some(surface) => {
                if surface.is_closed() {
                    return Vec::new();
                }
                if !surface.is_configured() {
                    if let Some(waiting) = surface.pending_buffer() {
                        if waiting.buffer != buffer.buffer {
                            self.mark_all(waiting.buffer, true);
                        }
                    }
                }
                self.mark_all(buffer.buffer, false);
                self.wayland_state.attach_buffer(name, buffer)
            },
            None => Vec::new(),
        }
    }

    /// Takes one event of the compositor and returns the requests that
    /// answer it, in order. The session handles the event; the release of
    /// a buffer is also recorded in the pool that owns the buffer, which
    /// may then choose it again.
    pub fn handle_event(&mut self, event: Event) -> (requests: Vec<Request>)
        requires
            old(self).wf(),
        ensures
            final(self).wf(),
            final(self)@ == old(self)@.after_event(event),
            requests@ == old(self)@.session.emitted(event),
    {
        let released: Option<u32> = match &event {
            Event::BufferRelease { buffer } => Some(*buffer),
            _ => None,
        };
        if let Some(buffer) = released {
            self.mark_all(buffer, true);
        }
        self.wayland_state.handle_event(event)
    }

    /// Gives every monitor that the call is for the buffer that shows
    /// `path`, in the order of the monitors, and stops at the first that
    /// fails. Nothing is attached and nothing is filed in the cache.
    ///
    /// Returns the requests that create the buffers made so far, and the
    /// buffers, monitor by monitor, or the error of the monitor that
    /// failed.
    pub fn render_all(&mut self, path: &str, only: Option<u32>) -> (r: (
        Vec<Request>,
        WallpaperResult<Vec<Option<Buffer>>>,
    ))
        requires
            old(self).wf(),
        ensures
            final(self).wf(),
            final(self)@ == (AppView {
                pools: final(self)@.pools,
                resamples: final(self)@.resamples,
                ..old(self)@
            }),
            final(self)@.pools.len() == old(self)@.pools.len(),
            if old(self)@.all_ready(path@, only) {
                &&& r.1 matches Ok(buffers)
                &&& buffers@ == old(self)@.buffers_for(path@, only)
                &&& r.0@ == old(self)@.render_trace(path@, only, old(self)@.monitors.len() as int)
                &&& old(self)@.rendered_to(final(self)@, path@, only)
            } else {
                let failed = old(self)@.first_failure(path@, only);
                &&& old(self)@.is_first_failure(path@, only, failed)
                &&& r.1 matches Err(e)
                &&& reports(e, old(self)@.failure(path@, failed)->0)
                &&& r.0@ == old(self)@.render_trace(path@, only, failed)
                &&& final(self)@.resamples == old(self)@.resamples_upto(path@, only, failed + 1)
                &&& forall|j: int|
                    0 <= j < old(self)@.pools.len() ==> if j < failed {
                        old(self)@.pool_served(#[trigger] final(self)@.pools[j], path@, only, j)
                    } else {
                        final(self)@.pools[j] == old(self)@.pools[j]
                    }
            },
    {
        let mut requests: Vec<Request> = Vec::new();
        let mut buffers: Vec<Option<Buffer>> = Vec::new();
        let count: usize = self.monitors.len();
        let mut i: usize = 0;
        while i < count
            invariant
                0 <= i <= count,
                count == old(self)@.monitors.len(),
                old(self).wf(),
                self.wf(),
                self@ == (AppView {
                    pools: self@.pools,
                    resamples: old(self)@.resamples_upto(path@, only, i as int),
                    ..old(self)@
                }),
                self@.pools.len() == old(self)@.pools.len(),
                forall|j: int|
                    0 <= j < old(self)@.pools.len() ==> if j < i {
                        old(self)@.pool_served(#[trigger] self@.pools[j], path@, only, j)
                    } else {
                        self@.pools[j] == old(self)@.pools[j]
                    },
                forall|j: int| 0 <= j < i ==> !#[trigger] old(self)@.fails_at(path@, only, j),
                buffers@ == old(self)@.buffers_for(path@, only).take(i as int),
                requests@ == old(self)@.render_trace(path@, only, i as int),
            decreases count - i,
        {
            let ghost now = self@;
            let wanted = match only {
                Some(name) => self.monitors[i].name == name,
                None => true,
            };
            proof {
                assert(wanted == chosen(only, old(self)@.monitors[i as int]));
                assert(now.failure(path@, i as int) == old(self)@.failure(path@, i as int));
                assert(now.hit(path@, i as int) == old(self)@.hit(path@, i as int));
                assert(now.resamples_for(path@, i as int) == old(self)@.resamples_for(
                    path@,
                    i as int,
                ));
                if now.hit(path@, i as int) || i < now.pools.len() {
                    assert(now.buffer_for(path@, i as int) == old(self)@.buffer_for(
                        path@,
                        i as int,
                    ));
                    assert(now.render_requests(path@, i as int) == old(self)@.render_requests(
                        path@,
                        i as int,
                    ));
                }
            }
            if wanted {
                match self.render_output(path, i) {
                    Ok((buffer, mut created)) => {
                        requests.append(&mut created);
                        buffers.push(Some(buffer));
                        proof {
                            assert(!old(self)@.fails_at(path@, only, i as int));
                            assert forall|j: int| 0 <= j < old(self)@.pools.len() implies if j < i
                                + 1 {
                                old(self)@.pool_served(#[trigger] self@.pools[j], path@, only, j)
                            } else {
                                self@.pools[j] == old(self)@.pools[j]
                            } by {
                                if j != i {
                                    assert(self@.pools[j] == now.pools[j]);
                                } else if now.hit(path@, i as int) {
                                    assert(self@.pools[j] == now.pools[j]);
                                } else {
                                    let scaled = choose|scaled: Seq<u8>|
                                        {
                                            &&& scaled_as(
                                                now.loader.images[path@],
                                                now.monitors[j].width as u32,
                                                now.monitors[j].height as u32,
                                                scaled,
                                            )
                                            &&& #[trigger] now.rendered_pool(j, scaled)
                                                == self@.pools[j]
                                        };
                                    assert(old(self)@.rendered_pool(j, scaled) == now.rendered_pool(
                                        j,
                                        scaled,
                                    ));
                                }
                            }
                        }
                    },
                    Err(e) => {
                        proof {
                            assert(old(self)@.fails_at(path@, only, i as int));
                            assert(old(self)@.is_first_failure(path@, only, i as int));
                            lemma_first_failure_is(old(self)@, path@, only, i as int);
                            assert(self@.pools =~= now.pools);
                        }
                        return (requests, Err(e));
                    },
                }
            } else {
                buffers.push(None);
                assert(!old(self)@.fails_at(path@, only, i as int));
            }
            proof {
                assert(buffers@ =~= old(self)@.buffers_for(path@, only).take(i as int + 1));
            }
            i += 1;
        }
        proof {
            assert(buffers@ =~= old(self)@.buffers_for(path@, only));
            assert(old(self)@.all_ready(path@, only));
        }
        (requests, Ok(buffers))
    }

    /// Hands each buffer to the surface of its monitor, one after the
    /// other in the order of the monitors, files the buffers in the cache
    /// under `path`, and notes `path` as the image on show. Returns what
    /// the surfaces send. Each buffer has to have the size of its monitor.
    pub fn attach_all(&mut self, path: &str, buffers: &Vec<Option<Buffer>>) -> (requests: Vec<
        Request,
    >)
        requires
            old(self).wf(),
            buffers@.len() == old(self)@.monitors.len(),
            old(self)@.all_fit(buffers@),
        ensures
            final(self).wf(),
            final(self)@ == old(self)@.finished(path@, buffers@),
            requests@ == old(self)@.attach_trace(buffers@, old(self)@.monitors.len() as int),
    {
        let mut requests: Vec<Request> = Vec::new();
        let count: usize = self.monitors.len();
        let mut i: usize = 0;
        while i < count
            invariant
                0 <= i <= count,
                count == old(self)@.monitors.len(),
                buffers@.len() == count,
                self.wf(),
                self@ == old(self)@.attached_upto(buffers@, i as int),
                self@.monitors == old(self)@.monitors,
                self@.cache == old(self)@.cache,
                requests@ == old(self)@.attach_trace(buffers@, i as int),
            decreases count - i,
        {
            if let Some(buffer) = buffers[i] {
                let mut sent = self.attach_one(i, &buffer);
                requests.append(&mut sent);
            }
            i += 1;
        }
        let ghost attached = self@;
        let mut k: usize = 0;
        while k < count
            invariant
                0 <= k <= count,
                count == old(self)@.monitors.len(),
                buffers@.len() == count,
                self.wf(),
                old(self)@.all_fit(buffers@),
                attached == old(self)@.attached_upto(buffers@, count as int),
                attached.monitors == old(self)@.monitors,
                self@ == (AppView {
                    cache: old(self)@.cache_upto(path@, buffers@, k as int),
                    ..attached
                }),
            decreases count - k,
        {
            if let Some(buffer) = buffers[k] {
                let monitor = self.monitors[k];
                if monitor.width > 0 && monitor.height > 0 {
                    let ghost prior = self@.cache;
                    let key = CacheKey::new(path, monitor.width as u32, monitor.height as u32);
                    self.cache.insert(key, buffer);
                    proof {
                        assert(old(self)@.fits(k as int, buffer));
                        assert forall|other: (Seq<char>, u32, u32)| #[trigger]
                            self@.cache.contains_key(other) implies self@.cache[other].width
                            == other.1 && self@.cache[other].height == other.2 by {
                            if other != key@ {
                                assert(prior.contains_key(other));
                            }
                        }
                    }
                }
            }
            k += 1;
        }
        let ghost filed = self@;
        self.current_wallpaper = Some(copy_text(path));
        proof {
            assert(self@ == (AppView { current_wallpaper: Some(path@), ..filed }));
            assert(filed.cache_sized());
            assert(self@.cache == filed.cache);
        }
        requests
    }

    /// Shows `path` on every monitor that the call is for: all monitors,
    /// or the one announced under the name `only`.
    ///
    /// First every such monitor is given its buffer, from the cache or
    /// rendered; the first failure ends the call, and then no surface was
    /// touched and nothing was filed. Then the buffers are handed to the
    /// surfaces one after the other and filed in the cache, and `path` is
    /// noted as the image on show.
    ///
    /// Returns the requests to send, in order, and whether the call
    /// succeeded. The requests are to be sent in either case: they create
    /// the buffers that the pools count as theirs.
    pub fn set_wallpaper_on(&mut self, path: &str, only: Option<u32>) -> (r: (
        Vec<Request>,
        WallpaperResult<()>,
    ))
        requires
            old(self).wf(),
        ensures
            final(self).wf(),
            final(self)@.monitors == old(self)@.monitors,
            final(self)@.loader == old(self)@.loader,
            final(self)@.attempts == old(self)@.attempts,
            if old(self)@.all_ready(path@, only) {
                &&& r.1 is Ok
                &&& exists|mid: AppView|
                    {
                        &&& #[trigger] old(self)@.rendered_to(mid, path@, only)
                        &&& final(self)@ == mid.finished(
                            path@,
                            old(self)@.buffers_for(path@, only),
                        )
                        &&& r.0@ == old(self)@.render_trace(
                            path@,
                            only,
                            old(self)@.monitors.len() as int,
                        ) + mid.attach_trace(
                            old(self)@.buffers_for(path@, only),
                            old(self)@.monitors.len() as int,
                        )
                    }
            } else {
                let failed = old(self)@.first_failure(path@, only);
                &&& old(self)@.is_first_failure(path@, only, failed)
                &&& r.1 matches Err(e)
                &&& reports(e, old(self)@.failure(path@, failed)->0)
                &&& r.0@ == old(self)@.render_trace(path@, only, failed)
                &&& final(self)@ == (AppView {
                    pools: final(self)@.pools,
                    resamples: old(self)@.resamples_upto(path@, only, failed + 1),
                    ..old(self)@
                })
            },
    {
        let (mut requests, rendered) = self.render_all(path, only);
        match rendered {
            Err(e) => (requests, Err(e)),
            Ok(buffers) => {
                let ghost mid = self@;
                proof {
                    lemma_buffers_fit(old(self)@, path@, only);
                    assert(mid.all_fit(buffers@));
                }
                let mut sent = self.attach_all(path, &buffers);
                requests.append(&mut sent);
                proof {
                    lemma_attached_keeps(
                        mid,
                        buffers@,
                        mid.monitors.len() as int,
                    );
                    assert(old(self)@.rendered_to(mid, path@, only));
                }
                (requests, Ok(()))
            },
        }
    }

    /// Shows `path` on every monitor; see `set_wallpaper_on`.
    pub fn set_wallpaper(&mut self, path: &str) -> (r: (Vec<Request>, WallpaperResult<()>))
        requires
            old(self).wf(),
        ensures
            final(self).wf(),
            sets_wallpaper(old(self)@, final(self)@, path@, None, r.0@, r.1),
    {
        self.set_wallpaper_on(path, None)
    }

    /// Shows `path` on every monitor and flushes: after a call that
    /// succeeded two roundtrips follow, so that the compositor has taken
    /// the commits before the caller goes on or exits.
    pub fn set_wallpaper_and_exit(&mut self, path: &str) -> (r: (
        Vec<Request>,
        WallpaperResult<()>,
    ))
        requires
            old(self).wf(),
        ensures
            final(self).wf(),
            sets_wallpaper(old(self)@, final(self)@, path@, None, before_flush(r.0@, r.1), r.1),
            r.0@ == before_flush(r.0@, r.1) + flush(r.1),
    {
        let (mut requests, outcome) = self.set_wallpaper_on(path, None);
        let ghost sent = requests@;
        let done = match &outcome {
            Ok(_) => true,
            Err(_) => false,
        };
        if done {
            requests.push(Request::Roundtrip);
            requests.push(Request::Roundtrip);
            assert(requests@ =~= sent + seq![Request::Roundtrip, Request::Roundtrip]);
        }
        proof {
            assert(before_flush(requests@, outcome) =~= sent);
            assert(requests@ =~= sent + flush(outcome));
        }
        (requests, outcome)
    }

    /// Shows the image on show once more, for a session that has to draw
    /// again. Without such an image nothing happens. The caller then
    /// dispatches the events of the compositor for as long as it runs.
    pub fn run_event_loop(&mut self) -> (r: (Vec<Request>, WallpaperResult<()>))
        requires
            old(self).wf(),
        ensures
            final(self).wf(),
            match old(self)@.current_wallpaper {
                Some(path) => sets_wallpaper(old(self)@, final(self)@, path, None, r.0@, r.1),
                None => final(self)@ == old(self)@ && r.0@.len() == 0 && r.1 is Ok,
            },
    {
        let path: String = match &self.current_wallpaper {
            Some(path) => path.clone(),
            None => {
                return (Vec::new(), Ok(()));
            },
        };
        self.set_wallpaper_on(path.as_str(), None)
    }

    /// The name of the first monitor that `selector` names, if it names
    /// one.
    fn select(&self, selector: &str) -> (name: Option<u32>)
        ensures
            match name {
                Some(name) => is_first_selected(
                    self@.monitors,
                    selector@,
                    first_selected(self@.monitors, selector@),
                ) && name == self@.monitors[first_selected(
                    self@.monitors,
                    selector@,
                )].name,
                None => !names_monitor(self@.monitors, selector@),
            },
    {
        let mut i: usize = 0;
        while i < self.monitors.len()
            invariant
                0 <= i <= self.monitors.len(),
                forall|j: int|
                    0 <= j < i ==> !selects(selector@, #[trigger] self@.monitors[j]),
            decreases self.monitors.len() - i,
        {
            if is_decimal_of(selector, self.monitors[i].name) {
                proof {
                    lemma_first_selected_is(self@.monitors, selector@, i as int);
                }
                return Some(self.monitors[i].name);
            }
            i += 1;
        }
        None
    }

    /// Carries out a command to show `image` on the output that `monitor`
    /// names, or on all outputs if it names none. `scaling` is checked to
    /// be the name of a scaling mode and has no further part: the image is
    /// always brought to the exact size of each output.
    ///
    /// A monitor that names no output is refused with `InvalidMonitor`,
    /// whatever the scaling is; then a scaling that is not the name of a
    /// mode is refused with `InvalidScaling`. Either error carries the text
    /// that was refused, and nothing is touched and nothing is sent. An
    /// output is named by the number under which the compositor announced
    /// it, written in decimal. Otherwise the call is `set_wallpaper_on` for
    /// the output named.
    pub fn apply(&mut self, image: &str, monitor: Option<&str>, scaling: &str) -> (r: (
        Vec<Request>,
        WallpaperResult<()>,
    ))
        requires
            old(self).wf(),
        ensures
            final(self).wf(),
            applies(
                old(self)@,
                final(self)@,
                image@,
                match monitor {
                    Some(selector) => Some(selector@),
                    None => None,
                },
                scaling@,
                r.0@,
                r.1,
            ),
    {
        let only: Option<u32> = match monitor {
            Some(selector) => match self.select(selector) {
                Some(name) => Some(name),
                None => {
                    return (
                        Vec::new(),
                        Err(WallpaperError::InvalidMonitor(copy_text(selector))),
                    );
                },
            },
            None => None,
        };
        match ScalingMode::from_name(scaling) {
            Ok(_) => {},
            Err(e) => {
                return (Vec::new(), Err(e));
            },
        }
        self.set_wallpaper_on(image, only)
    }
}

/// Whether a command asks for the file of `image` to be decoded; see
/// `App::wants_source`.
pub open spec fn wanted_source(
    view: AppView,
    image: Seq<char>,
    monitor: Option<Seq<char>>,
    scaling: Seq<char>,
) -> bool {
    &&& ScalingMode::named(scaling) is Some
    &&& match monitor {
        Some(selector) => names_monitor(view.monitors, selector) && view.needs_source(
            image,
            Some(view.monitors[first_selected(view.monitors, selector)].name),
        ),
        None => view.needs_source(image, None),
    }
}

/// A count after `more` were counted. The count stops at `u64::MAX`.
pub open spec fn counted_by(n: u64, more: nat) -> u64 {
    if n + more <= u64::MAX {
        (n + more) as u64
    } else {
        u64::MAX
    }
}

/// The count of resamplings grows by one for each monitor that gets the
/// image resampled.
pub proof fn lemma_resamplings_are_counted(
    view: AppView,
    path: Seq<char>,
    only: Option<u32>,
    n: int,
)
    ensures
        view.resamples_upto(path, only, n) == counted_by(
            view.resamples,
            view.resamplings(path, only, n),
        ),
    decreases n,
{
    if n > 0 {
        lemma_resamplings_are_counted(view, path, only, n - 1);
    }
}

/// One decoded image serves every output: a call for an image that was
/// taken in succeeds if every output it is for can be given a buffer; it
/// takes in no further image, so that the image was decoded once however
/// many outputs there are; it resamples once for each output that had no
/// buffer in the cache; and afterwards the decoded image is not needed
/// again. Two outputs of different size end up with an entry each in the
/// cache.
pub proof fn lemma_one_decode_serves_all_outputs(
    before: AppView,
    after: AppView,
    path: Seq<char>,
    only: Option<u32>,
    requests: Seq<Request>,
    outcome: WallpaperResult<()>,
)
    requires
        sets_wallpaper(before, after, path, only, requests, outcome),
        before.loader.images.contains_key(path),
        before.all_ready(path, only),
    ensures
        outcome is Ok,
        after.loader == before.loader,
        after.resamples == counted_by(
            before.resamples,
            before.resamplings(path, only, before.monitors.len() as int),
        ),
        !after.needs_source(path, only),
        forall|i: int, j: int|
            0 <= i < after.monitors.len() && 0 <= j < after.monitors.len() && chosen(
                only,
                after.monitors[i],
            ) && chosen(only, after.monitors[j]) && (after.monitors[i].width
                != after.monitors[j].width || after.monitors[i].height != after.monitors[j].height)
                ==> #[trigger] after.own_entries(path, i, j),
{
    let n = before.monitors.len() as int;
    let buffers = before.buffers_for(path, only);
    let mid = choose|mid: AppView|
        {
            &&& #[trigger] before.rendered_to(mid, path, only)
            &&& after == mid.finished(path, buffers)
            &&& requests == before.render_trace(path, only, n) + mid.attach_trace(buffers, n)
        };
    lemma_attached_keeps(mid, buffers, n);
    lemma_resamplings_are_counted(before, path, only, n);
    lemma_applied_is_cached(before, after, path, only, requests, outcome);
    assert forall|i: int, j: int|
        0 <= i < after.monitors.len() && 0 <= j < after.monitors.len() && chosen(
            only,
            after.monitors[i],
        ) && chosen(only, after.monitors[j]) && (after.monitors[i].width
            != after.monitors[j].width || after.monitors[i].height
            != after.monitors[j].height) implies #[trigger] after.own_entries(path, i, j) by {
        assert(after.hit(path, i));
        assert(after.hit(path, j));
    }
}

/// What `App::apply` does, as a relation between the orchestrator before
/// and after, the requests and the outcome.
pub open spec fn applies(
    before: AppView,
    after: AppView,
    image: Seq<char>,
    monitor: Option<Seq<char>>,
    scaling: Seq<char>,
    requests: Seq<Request>,
    outcome: WallpaperResult<()>,
) -> bool {
    if monitor matches Some(selector) && !names_monitor(before.monitors, selector) {
        &&& outcome matches Err(WallpaperError::InvalidMonitor(text))
        &&& Some(text@) == monitor
        &&& requests.len() == 0
        &&& after == before
    } else if ScalingMode::named(scaling) is None {
        &&& outcome matches Err(WallpaperError::InvalidScaling(text))
        &&& text@ == scaling
        &&& requests.len() == 0
        &&& after == before
    } else {
        sets_wallpaper(
            before,
            after,
            image,
            match monitor {
                Some(selector) => Some(
                    before.monitors[first_selected(before.monitors, selector)].name,
                ),
                None => None,
            },
            requests,
            outcome,
        )
    }
}

/// The requests that flush after a call with this outcome: two roundtrips
/// if it succeeded, none if it failed.
pub open spec fn flush(outcome: WallpaperResult<()>) -> Seq<Request> {
    if outcome is Ok {
        seq![Request::Roundtrip, Request::Roundtrip]
    } else {
        Seq::empty()
    }
}

/// The requests of a flushed call without the flush at their end.
pub open spec fn before_flush(requests: Seq<Request>, outcome: WallpaperResult<()>) -> Seq<Request> {
    requests.take(requests.len() - flush(outcome).len())
}

/// Whether `selector` is the way to name `monitor`: the number under which
/// the compositor announced it, written in decimal.
pub open spec fn selects(selector: Seq<char>, monitor: Monitor) -> bool {
    text_bytes(selector) == decimal_bytes(monitor.name as nat)
}

/// Whether `selector` names one of the monitors.
pub open spec fn names_monitor(monitors: Seq<Monitor>, selector: Seq<char>) -> bool {
    exists|i: int| 0 <= i < monitors.len() && selects(selector, #[trigger] monitors[i])
}

/// Whether the monitor at `i` is the first that `selector` names.
pub open spec fn is_first_selected(monitors: Seq<Monitor>, selector: Seq<char>, i: int) -> bool {
    &&& 0 <= i < monitors.len()
    &&& selects(selector, monitors[i])
    &&& forall|j: int| 0 <= j < i ==> !selects(selector, #[trigger] monitors[j])
}

/// The position of the first monitor that `selector` names.
pub open spec fn first_selected(monitors: Seq<Monitor>, selector: Seq<char>) -> int {
    choose|i: int| is_first_selected(monitors, selector, i)
}

proof fn lemma_first_selected_is(monitors: Seq<Monitor>, selector: Seq<char>, i: int)
    requires
        is_first_selected(monitors, selector, i),
    ensures
        names_monitor(monitors, selector),
        first_selected(monitors, selector) == i,
{
    let f = first_selected(monitors, selector);
    if f < i {
        assert(!selects(selector, monitors[f]));
    } else if i < f {
        assert(!selects(selector, monitors[i]));
    }
}

/// The requests that take pools down, the last pool first.
pub open spec fn teardown_all(pools: Seq<PoolView>) -> Seq<Request>
    decreases pools.len(),
{
    if pools.len() == 0 {
        Seq::empty()
    } else {
        pools.last().teardown_requests() + teardown_all(pools.drop_last())
    }
}

/// The surface that is made for `monitor`, after its setup was sent.
pub open spec fn new_surface(monitor: Monitor, viewport: bool) -> SurfaceView {
    SurfaceView::fresh(monitor.name, monitor.output, viewport).next(SurfaceInput::Create)
}

/// The surfaces after each of the first `n` monitors got a new surface,
/// filed under the monitor's name.
pub open spec fn surfaces_upto(
    surfaces: Seq<(u32, SurfaceView)>,
    monitors: Seq<Monitor>,
    viewport: bool,
    n: int,
) -> Seq<(u32, SurfaceView)>
    decreases n,
{
    if n <= 0 {
        surfaces
    } else {
        with_surface(
            surfaces_upto(surfaces, monitors, viewport, n - 1),
            monitors[n - 1].name,
            new_surface(monitors[n - 1], viewport),
        )
    }
}

/// The requests that set up the surfaces of the first `n` monitors.
pub open spec fn creation_trace(monitors: Seq<Monitor>, viewport: bool, n: int) -> Seq<Request>
    decreases n,
{
    if n <= 0 {
        Seq::empty()
    } else {
        creation_trace(monitors, viewport, n - 1) + SurfaceView::fresh(
            monitors[n - 1].name,
            monitors[n - 1].output,
            viewport,
        ).emitted(SurfaceInput::Create)
    }
}

/// What `set_wallpaper_on` does, as a relation between the orchestrator
/// before and after, the requests and the outcome.
pub open spec fn sets_wallpaper(
    before: AppView,
    after: AppView,
    path: Seq<char>,
    only: Option<u32>,
    requests: Seq<Request>,
    outcome: WallpaperResult<()>,
) -> bool {
    &&& after.monitors == before.monitors
    &&& after.loader == before.loader
    &&& after.attempts == before.attempts
    &&& if before.all_ready(path, only) {
        &&& outcome is Ok
        &&& exists|mid: AppView|
            {
                &&& #[trigger] before.rendered_to(mid, path, only)
                &&& after == mid.finished(path, before.buffers_for(path, only))
                &&& requests == before.render_trace(path, only, before.monitors.len() as int)
                    + mid.attach_trace(
                    before.buffers_for(path, only),
                    before.monitors.len() as int,
                )
            }
    } else {
        let failed = before.first_failure(path, only);
        &&& before.is_first_failure(path, only, failed)
        &&& outcome matches Err(e)
        &&& reports(e, before.failure(path, failed)->0)
        &&& requests == before.render_trace(path, only, failed)
        &&& after == (AppView {
            pools: after.pools,
            resamples: before.resamples_upto(path, only, failed + 1),
            ..before
        })
    }
}

/// Every output gets a buffer of its own size: where every monitor that a
/// call is for can be given a buffer, the buffer chosen for each of them,
/// from the cache or from its pool, is as wide and as high as the monitor.
pub proof fn lemma_buffers_fit(view: AppView, path: Seq<char>, only: Option<u32>)
    requires
        view.valid(),
        view.all_ready(path, only),
    ensures
        view.all_fit(view.buffers_for(path, only)),
{
    let buffers = view.buffers_for(path, only);
    assert forall|i: int| 0 <= i < buffers.len() implies ((#[trigger] buffers[i]) matches Some(
        buffer,
    ) ==> view.fits(i, buffer)) by {
        if chosen(only, view.monitors[i]) {
            assert(!view.fails_at(path, only, i));
            assert(view.has_size(i));
            if view.hit(path, i) {
                assert(view.cache.contains_key(view.key(path, i)));
            } else {
                let pool = view.pools[i];
                assert(pool.valid());
                if !crate::engine::pool::none_released(pool.buffers) {
                    crate::engine::pool::lemma_some_first_released(pool.buffers);
                }
            }
        }
    }
}

/// Handing buffers to surfaces changes the session and the pools and
/// nothing else.
pub proof fn lemma_attached_keeps(view: AppView, buffers: Seq<Option<Buffer>>, n: int)
    ensures
        view.attached_upto(buffers, n) == (AppView {
            session: view.attached_upto(buffers, n).session,
            pools: view.attached_upto(buffers, n).pools,
            ..view
        }),
        view.attached_upto(buffers, n).pools.len() == view.pools.len(),
    decreases n,
{
    if n > 0 {
        lemma_attached_keeps(view, buffers, n - 1);
    }
}

/// The first failure is unique.
pub proof fn lemma_first_failure_is(view: AppView, path: Seq<char>, only: Option<u32>, i: int)
    requires
        view.is_first_failure(path, only, i),
    ensures
        !view.all_ready(path, only),
        view.first_failure(path, only) == i,
{
    let f = view.first_failure(path, only);
    if f < i {
        assert(!view.fails_at(path, only, f));
    } else if i < f {
        assert(!view.fails_at(path, only, i));
    }
}

proof fn lemma_cache_upto_has(
    view: AppView,
    path: Seq<char>,
    buffers: Seq<Option<Buffer>>,
    n: int,
    i: int,
)
    requires
        0 <= i < n,
        buffers[i] is Some,
        view.has_size(i),
    ensures
        view.cache_upto(path, buffers, n).contains_key(view.key(path, i)),
    decreases n,
{
    if i < n - 1 {
        lemma_cache_upto_has(view, path, buffers, n - 1, i);
    }
}

proof fn lemma_hits_need_no_resampling(view: AppView, path: Seq<char>, only: Option<u32>, n: int)
    requires
        forall|i: int| 0 <= i < n && chosen(only, view.monitors[i]) ==> #[trigger] view.hit(path, i),
    ensures
        view.resamples_upto(path, only, n) == view.resamples,
    decreases n,
{
    if n > 0 {
        lemma_hits_need_no_resampling(view, path, only, n - 1);
        if chosen(only, view.monitors[n - 1]) {
            assert(view.hit(path, n - 1));
        }
    }
}

/// After a call that succeeded, the cache holds a buffer of the image for
/// every monitor that the call was for.
pub proof fn lemma_applied_is_cached(
    before: AppView,
    after: AppView,
    path: Seq<char>,
    only: Option<u32>,
    requests: Seq<Request>,
    outcome: WallpaperResult<()>,
)
    requires
        sets_wallpaper(before, after, path, only, requests, outcome),
        outcome is Ok,
    ensures
        forall|i: int|
            0 <= i < after.monitors.len() && chosen(only, after.monitors[i]) ==> #[trigger] after.hit(
                path,
                i,
            ),
{
    if !before.all_ready(path, only) {
        assert(outcome is Err);
    }
    let buffers = before.buffers_for(path, only);
    let n = before.monitors.len() as int;
    let mid = choose|mid: AppView|
        {
            &&& #[trigger] before.rendered_to(mid, path, only)
            &&& after == mid.finished(path, buffers)
            &&& requests == before.render_trace(path, only, n) + mid.attach_trace(buffers, n)
        };
    lemma_attached_keeps(mid, buffers, n);
    assert forall|i: int|
        0 <= i < after.monitors.len() && chosen(only, after.monitors[i]) implies #[trigger] after.hit(
        path,
        i,
    ) by {
        assert(!before.fails_at(path, only, i));
        assert(before.has_size(i));
        lemma_cache_upto_has(mid, path, buffers, n, i);
    }
}

/// Repeating a call finds everything in the cache: when a call for an
/// image has succeeded, the same call once more succeeds too, resamples
/// nothing and takes in no decoded image, for every monitor it is for.
pub proof fn lemma_repeat_resamples_nothing(
    first: AppView,
    second: AppView,
    third: AppView,
    path: Seq<char>,
    only: Option<u32>,
    sent: Seq<Request>,
    outcome: WallpaperResult<()>,
    sent_again: Seq<Request>,
    outcome_again: WallpaperResult<()>,
)
    requires
        sets_wallpaper(first, second, path, only, sent, outcome),
        outcome is Ok,
        sets_wallpaper(second, third, path, only, sent_again, outcome_again),
    ensures
        outcome_again is Ok,
        third.resamples == second.resamples,
        third.loader.decodes == second.loader.decodes,
        forall|i: int|
            0 <= i < second.monitors.len() && chosen(only, second.monitors[i]) ==> #[trigger] second.hit(
                path,
                i,
            ),
{
    lemma_applied_is_cached(first, second, path, only, sent, outcome);
    let n = second.monitors.len() as int;
    assert forall|i: int| 0 <= i < n implies !#[trigger] second.fails_at(path, only, i) by {
        if chosen(only, second.monitors[i]) {
            assert(second.hit(path, i));
        }
    }
    assert(second.all_ready(path, only));
    let buffers = second.buffers_for(path, only);
    let mid = choose|mid: AppView|
        {
            &&& #[trigger] second.rendered_to(mid, path, only)
            &&& third == mid.finished(path, buffers)
            &&& sent_again == second.render_trace(path, only, n) + mid.attach_trace(buffers, n)
        };
    lemma_hits_need_no_resampling(second, path, only, n);
    lemma_attached_keeps(mid, buffers, n);
}

/// The step of the wait for configured surfaces after `attempts`
/// roundtrips.
pub open spec fn handshake_step(attempts: u32, all_configured: bool) -> HandshakeStep {
    if attempts >= 1 && all_configured {
        HandshakeStep::Configured
    } else if attempts >= CONFIGURE_ATTEMPTS {
        HandshakeStep::Exhausted
    } else {
        HandshakeStep::Roundtrip
    }
}

} // verus!
