use crate::display::monitor::Monitor;
use crate::engine::backend::{LayerSurface, SurfaceInput, SurfaceView};
use crate::engine::buffer::Buffer;
use crate::engine::protocol::{Event, Interface, Request};
use crate::utils::text::same_text;
use vstd::prelude::*;

verus! {

/// What a session knows, as plain values.
pub struct SessionView {
    /// The outputs, in the order in which they were announced.
    pub monitors: Seq<Monitor>,
    /// Registry names of the bound globals, where they were announced.
    pub shm: Option<u32>,
    pub layer_shell: Option<u32>,
    pub compositor: Option<u32>,
    pub viewporter: Option<u32>,
    /// The layer surfaces with the handles under which they are filed, in
    /// the order in which they were added.
    pub surfaces: Seq<(u32, SurfaceView)>,
}

/// The interface that a global of this name offers, if the session binds it.
pub open spec fn interface_named(name: Seq<char>) -> Option<Interface> {
    if name == "wl_output"@ {
        Some(Interface::Output)
    } else if name == "wl_compositor"@ {
        Some(Interface::Compositor)
    } else if name == "zwlr_layer_shell_v1"@ {
        Some(Interface::LayerShell)
    } else if name == "wl_shm"@ {
        Some(Interface::Shm)
    } else if name == "wp_viewporter"@ {
        Some(Interface::Viewporter)
    } else {
        None
    }
}

/// Whether a surface is filed under `id`.
pub open spec fn has_surface(surfaces: Seq<(u32, SurfaceView)>, id: u32) -> bool {
    exists|i: int| 0 <= i < surfaces.len() && (#[trigger] surfaces[i]).0 == id
}

/// A position at which a surface is filed under `id`.
pub open spec fn surface_position(surfaces: Seq<(u32, SurfaceView)>, id: u32) -> int {
    choose|i: int| 0 <= i < surfaces.len() && (#[trigger] surfaces[i]).0 == id
}

/// Whether no handle files two surfaces.
pub open spec fn distinct_ids(surfaces: Seq<(u32, SurfaceView)>) -> bool {
    forall|i: int, j: int|
        0 <= i < j < surfaces.len() ==> (#[trigger] surfaces[i]).0 != (#[trigger] surfaces[j]).0
}

/// The surfaces after `input` went to the one filed under `id`, if any.
pub open spec fn routed(surfaces: Seq<(u32, SurfaceView)>, id: u32, input: SurfaceInput) -> Seq<
    (u32, SurfaceView),
> {
    if has_surface(surfaces, id) {
        let i = surface_position(surfaces, id);
        surfaces.update(i, (id, surfaces[i].1.next(input)))
    } else {
        surfaces
    }
}

/// What the surface filed under `id`, if any, sends on `input`.
pub open spec fn routed_requests(
    surfaces: Seq<(u32, SurfaceView)>,
    id: u32,
    input: SurfaceInput,
) -> Seq<Request> {
    if has_surface(surfaces, id) {
        surfaces[surface_position(surfaces, id)].1.emitted(input)
    } else {
        Seq::empty()
    }
}

/// The surfaces after every one of them was told of the release of `buffer`.
pub open spec fn all_released(surfaces: Seq<(u32, SurfaceView)>, buffer: u32) -> Seq<
    (u32, SurfaceView),
> {
    Seq::new(
        surfaces.len(),
        |i: int| (surfaces[i].0, surfaces[i].1.next(SurfaceInput::Release { buffer })),
    )
}

/// The surfaces without the one filed under `id`.
pub open spec fn without_surface(surfaces: Seq<(u32, SurfaceView)>, id: u32) -> Seq<
    (u32, SurfaceView),
> {
    if has_surface(surfaces, id) {
        surfaces.remove(surface_position(surfaces, id))
    } else {
        surfaces
    }
}

/// The surfaces with `surface` filed under `id`, in place of what was filed
/// there before, or at the end.
pub open spec fn with_surface(surfaces: Seq<(u32, SurfaceView)>, id: u32, surface: SurfaceView) -> Seq<
    (u32, SurfaceView),
> {
    if has_surface(surfaces, id) {
        surfaces.update(surface_position(surfaces, id), (id, surface))
    } else {
        surfaces.push((id, surface))
    }
}

/// Whether `i` is the position of the first monitor with handle `output`.
pub open spec fn is_first_monitor(monitors: Seq<Monitor>, output: u32, i: int) -> bool {
    &&& 0 <= i < monitors.len()
    &&& monitors[i].output == output
    &&& forall|j: int| 0 <= j < i ==> (#[trigger] monitors[j]).output != output
}

/// Whether some monitor has the handle `output`.
pub open spec fn has_monitor(monitors: Seq<Monitor>, output: u32) -> bool {
    exists|i: int| 0 <= i < monitors.len() && (#[trigger] monitors[i]).output == output
}

/// The position of the first monitor with handle `output`.
pub open spec fn monitor_position(monitors: Seq<Monitor>, output: u32) -> int {
    choose|i: int| is_first_monitor(monitors, output, i)
}

/// The monitors after the first one with handle `output`, if any, was
/// placed at (`x`, `y`).
pub open spec fn placed(monitors: Seq<Monitor>, output: u32, x: i32, y: i32) -> Seq<Monitor> {
    if has_monitor(monitors, output) {
        let i = monitor_position(monitors, output);
        monitors.update(i, Monitor { x, y, ..monitors[i] })
    } else {
        monitors
    }
}

/// The monitors after the first one with handle `output`, if any, got its
/// mode.
pub open spec fn sized(
    monitors: Seq<Monitor>,
    output: u32,
    width: i32,
    height: i32,
    refresh: i32,
) -> Seq<Monitor> {
    if has_monitor(monitors, output) {
        let i = monitor_position(monitors, output);
        monitors.update(i, Monitor { width, height, refresh, ..monitors[i] })
    } else {
        monitors
    }
}

/// The monitors that were not announced under `name`, in their order.
pub open spec fn without_name(monitors: Seq<Monitor>, name: u32) -> Seq<Monitor>
    decreases monitors.len(),
{
    if monitors.len() == 0 {
        monitors
    } else {
        let rest = without_name(monitors.drop_last(), name);
        if monitors.last().name != name {
            rest.push(monitors.last())
        } else {
            rest
        }
    }
}

/// The requests that answer the announcement of a global: it is bound if
/// the session uses its interface.
pub open spec fn global_requests(name: u32, interface: Seq<char>, version: u32) -> Seq<Request> {
    match interface_named(interface) {
        Some(interface) => seq![Request::Bind { name, interface, version }],
        None => Seq::empty(),
    }
}

impl SessionView {
    /// A session that knows nothing yet.
    pub open spec fn empty() -> SessionView {
        SessionView {
            monitors: Seq::empty(),
            shm: None,
            layer_shell: None,
            compositor: None,
            viewporter: None,
            surfaces: Seq::empty(),
        }
    }

    pub open spec fn valid(self) -> bool {
        distinct_ids(self.surfaces)
    }

    /// The session after the announcement of the global `name` with the
    /// interface called `interface`.
    pub open spec fn after_global(self, name: u32, interface: Seq<char>) -> SessionView {
        match interface_named(interface) {
            Some(Interface::Output) => SessionView {
                monitors: self.monitors.push(
                    Monitor {
                        output: name,
                        name,
                        x: 0,
                        y: 0,
                        width: 0,
                        height: 0,
                        refresh: 0,
                        scale: 1,
                    },
                ),
                ..self
            },
            Some(Interface::Compositor) => SessionView { compositor: Some(name), ..self },
            Some(Interface::LayerShell) => SessionView { layer_shell: Some(name), ..self },
            Some(Interface::Shm) => SessionView { shm: Some(name), ..self },
            Some(Interface::Viewporter) => SessionView { viewporter: Some(name), ..self },
            None => self,
        }
    }

    /// The session after one event.
    ///
    /// A global that the session uses is bound and remembered; an output
    /// among them becomes a monitor. The removal of a global removes the
    /// monitors announced under its name. Geometry and mode go to the first
    /// monitor with the output's handle. A release goes to every surface; a
    /// configure or a frame callback to the surface it names; a closed
    /// surface leaves the session.
    pub open spec fn after(self, event: Event) -> SessionView {
        match event {
            Event::Global { name, interface, version } => self.after_global(name, interface@),
            Event::GlobalRemove { name } => SessionView {
                monitors: without_name(self.monitors, name),
                ..self
            },
            Event::OutputGeometry { output, x, y } => SessionView {
                monitors: placed(self.monitors, output, x, y),
                ..self
            },
            Event::OutputMode { output, width, height, refresh } => SessionView {
                monitors: sized(self.monitors, output, width, height, refresh),
                ..self
            },
            Event::OutputDone { output } => self,
            Event::BufferRelease { buffer } => SessionView {
                surfaces: all_released(self.surfaces, buffer),
                ..self
            },
            Event::LayerConfigure { surface, serial, width, height } => SessionView {
                surfaces: routed(self.surfaces, surface, SurfaceInput::Configure { serial }),
                ..self
            },
            Event::LayerClosed { surface } => SessionView {
                surfaces: without_surface(self.surfaces, surface),
                ..self
            },
            Event::FrameDone { surface, callback } => SessionView {
                surfaces: routed(self.surfaces, surface, SurfaceInput::Frame { callback }),
                ..self
            },
        }
    }

    /// The requests with which the session answers one event, in order.
    pub open spec fn emitted(self, event: Event) -> Seq<Request> {
        match event {
            Event::Global { name, interface, version } => global_requests(
                name,
                interface@,
                version,
            ),
            Event::LayerConfigure { surface, serial, width, height } => routed_requests(
                self.surfaces,
                surface,
                SurfaceInput::Configure { serial },
            ),
            Event::FrameDone { surface, callback } => routed_requests(
                self.surfaces,
                surface,
                SurfaceInput::Frame { callback },
            ),
            _ => Seq::empty(),
        }
    }

    /// Whether every surface is configured.
    pub open spec fn all_configured(self) -> bool {
        forall|i: int|
            0 <= i < self.surfaces.len() ==> (#[trigger] self.surfaces[i]).1.is_configured()
    }
}

/// Whether `request` is one that a surface or the session sends on its
/// own: anything but a roundtrip.
pub open spec fn is_plain(request: Request) -> bool {
    !(request is Roundtrip)
}

/// The answer to an event never asks for a roundtrip, so that events can
/// be handled while a roundtrip is under way.
pub proof fn lemma_events_ask_for_no_roundtrip(session: SessionView, event: Event)
    ensures
        forall|i: int|
            0 <= i < session.emitted(event).len() ==> is_plain(
                #[trigger] session.emitted(event)[i],
            ),
{
}

/// The views of filed surfaces, entry by entry.
pub closed spec fn surface_views(entries: Seq<(u32, LayerSurface)>) -> Seq<(u32, SurfaceView)> {
    Seq::new(entries.len(), |i: int| (entries[i].0, entries[i].1@))
}

proof fn lemma_position_is(surfaces: Seq<(u32, SurfaceView)>, id: u32, i: int)
    requires
        distinct_ids(surfaces),
        0 <= i < surfaces.len(),
        surfaces[i].0 == id,
    ensures
        has_surface(surfaces, id),
        surface_position(surfaces, id) == i,
{
    let p = surface_position(surfaces, id);
    if p < i {
        assert(surfaces[p].0 != surfaces[i].0);
    } else if i < p {
        assert(surfaces[i].0 != surfaces[p].0);
    }
}

proof fn lemma_first_monitor_is(monitors: Seq<Monitor>, output: u32, i: int)
    requires
        is_first_monitor(monitors, output, i),
    ensures
        has_monitor(monitors, output),
        monitor_position(monitors, output) == i,
{
    let p = monitor_position(monitors, output);
    if p < i {
        assert(monitors[p].output != output);
    } else if i < p {
        assert(monitors[i].output != output);
    }
}

/// The protocol session: the globals that were bound, the outputs, and the
/// layer surfaces filed under their handles. Every event of the compositor
/// goes through `handle_event`, which finds the surface an event is for by
/// its handle.
pub struct WaylandState {
    monitors: Vec<Monitor>,
    shm: Option<u32>,
    layer_shell: Option<u32>,
    compositor: Option<u32>,
    viewporter: Option<u32>,
    layer_surfaces: Vec<(u32, LayerSurface)>,
}

impl View for WaylandState {
    type V = SessionView;

    closed spec fn view(&self) -> SessionView {
        SessionView {
            monitors: self.monitors@,
            shm: self.shm,
            layer_shell: self.layer_shell,
            compositor: self.compositor,
            viewporter: self.viewporter,
            surfaces: surface_views(self.layer_surfaces@),
        }
    }
}

impl WaylandState {
    /// What holds of every session between calls: no handle files two
    /// surfaces.
    pub open spec fn wf(&self) -> bool {
        self@.valid()
    }

    /// A session that knows nothing yet, and the request that makes the
    /// compositor announce its globals.
    pub fn new() -> (r: (WaylandState, Vec<Request>))
        ensures
            r.0.wf(),
            r.0@ == SessionView::empty(),
            r.1@ == seq![Request::GetRegistry],
    {
        let state = WaylandState {
            monitors: Vec::new(),
            shm: None,
            layer_shell: None,
            compositor: None,
            viewporter: None,
            layer_surfaces: Vec::new(),
        };
        let mut requests: Vec<Request> = Vec::new();
        requests.push(Request::GetRegistry);
        assert(state@.surfaces =~= Seq::<(u32, SurfaceView)>::empty());
        assert(requests@ =~= seq![Request::GetRegistry]);
        (state, requests)
    }

    pub fn get_monitors(&self) -> (monitors: &[Monitor])
        ensures
            monitors@ == self@.monitors,
    {
        self.monitors.as_slice()
    }

    /// Registry name of the shared-memory global, once it was announced.
    pub fn get_shm(&self) -> (name: Option<u32>)
        ensures
            name == self@.shm,
    {
        self.shm
    }

    /// Registry name of the layer shell, once it was announced.
    pub fn get_layer_shell(&self) -> (name: Option<u32>)
        ensures
            name == self@.layer_shell,
    {
        self.layer_shell
    }

    /// Registry name of the compositor global, once it was announced.
    pub fn get_compositor(&self) -> (name: Option<u32>)
        ensures
            name == self@.compositor,
    {
        self.compositor
    }

    /// Registry name of the viewporter, if the compositor has one.
    pub fn get_viewporter(&self) -> (name: Option<u32>)
        ensures
            name == self@.viewporter,
    {
        self.viewporter
    }

    fn find_surface(&self, id: u32) -> (at: Option<usize>)
        requires
            self.wf(),
        ensures
            match at {
                Some(i) => {
                    &&& i < self.layer_surfaces@.len()
                    &&& self.layer_surfaces@[i as int].0 == id
                    &&& has_surface(self@.surfaces, id)
                    &&& surface_position(self@.surfaces, id) == i
                },
                None => !has_surface(self@.surfaces, id),
            },
    {
        let mut i: usize = 0;
        while i < self.layer_surfaces.len()
            invariant
                0 <= i <= self.layer_surfaces.len(),
                self.wf(),
                forall|j: int| 0 <= j < i ==> (#[trigger] self@.surfaces[j]).0 != id,
            decreases self.layer_surfaces.len() - i,
        {
            if self.layer_surfaces[i].0 == id {
                proof {
                    assert(self@.surfaces[i as int].0 == id);
                    lemma_position_is(self@.surfaces, id, i as int);
                }
                return Some(i);
            }
            assert(self@.surfaces[i as int].0 != id);
            i += 1;
        }
        None
    }

    /// Files `surface` under `id`, in place of a surface filed there
    /// before.
    pub fn add_layer_surface(&mut self, id: u32, surface: LayerSurface)
        requires
            old(self).wf(),
        ensures
            final(self).wf(),
            final(self)@ == (SessionView {
                surfaces: with_surface(old(self)@.surfaces, id, surface@),
                ..old(self)@
            }),
    {
        match self.find_surface(id) {
            Some(i) => {
                self.layer_surfaces.set(i, (id, surface));
                proof {
                    assert(self@.surfaces =~= with_surface(old(self)@.surfaces, id, surface@));
                    assert forall|a: int, b: int| 0 <= a < b < self@.surfaces.len() implies (
                    #[trigger] self@.surfaces[a]).0 != (#[trigger] self@.surfaces[b]).0 by {
                        assert(old(self)@.surfaces[a].0 != old(self)@.surfaces[b].0);
                    }
                }
            },
            None => {
                self.layer_surfaces.push((id, surface));
                proof {
                    assert(self@.surfaces =~= with_surface(old(self)@.surfaces, id, surface@));
                    assert forall|a: int, b: int| 0 <= a < b < self@.surfaces.len() implies (
                    #[trigger] self@.surfaces[a]).0 != (#[trigger] self@.surfaces[b]).0 by {
                        assert(self@.surfaces[a] == old(self)@.surfaces[a]);
                        if b < old(self)@.surfaces.len() {
                            assert(self@.surfaces[b] == old(self)@.surfaces[b]);
                        }
                    }
                }
            },
        }
    }

    /// The surface filed under `id`, if there is one.
    pub fn get_layer_surface(&self, id: u32) -> (surface: Option<LayerSurface>)
        requires
            self.wf(),
        ensures
            match surface {
                Some(s) => has_surface(self@.surfaces, id) && s@ == self@.surfaces[surface_position(
                    self@.surfaces,
                    id,
                )].1,
                None => !has_surface(self@.surfaces, id),
            },
    {
        match self.find_surface(id) {
            Some(i) => Some(self.layer_surfaces[i].1),
            None => None,
        }
    }

    /// Number of surfaces in the session.
    pub fn surface_count(&self) -> (n: usize)
        ensures
            n == self@.surfaces.len(),
    {
        self.layer_surfaces.len()
    }

    /// Whether every surface of the session is configured.
    pub fn all_surfaces_configured(&self) -> (r: bool)
        ensures
            r == self@.all_configured(),
    {
        let mut i: usize = 0;
        while i < self.layer_surfaces.len()
            invariant
                0 <= i <= self.layer_surfaces.len(),
                forall|j: int| 0 <= j < i ==> (#[trigger] self@.surfaces[j]).1.is_configured(),
            decreases self.layer_surfaces.len() - i,
        {
            if !self.layer_surfaces[i].1.is_configured() {
                assert(!self@.surfaces[i as int].1.is_configured());
                return false;
            }
            assert(self@.surfaces[i as int].1.is_configured());
            i += 1;
        }
        true
    }

    /// Hands `buffer` to the surface filed under `id` and returns what the
    /// surface sends. Without such a surface nothing happens.
    pub fn attach_buffer(&mut self, id: u32, buffer: &Buffer) -> (requests: Vec<Request>)
        requires
            old(self).wf(),
        ensures
            final(self).wf(),
            final(self)@ == (SessionView {
                surfaces: routed(
                    old(self)@.surfaces,
                    id,
                    SurfaceInput::Attach { buffer: *buffer },
                ),
                ..old(self)@
            }),
            requests@ == routed_requests(
                old(self)@.surfaces,
                id,
                SurfaceInput::Attach { buffer: *buffer },
            ),
    {
        match self.find_surface(id) {
            Some(i) => {
                let mut surface = self.layer_surfaces[i].1;
                let requests = surface.attach_buffer(buffer);
                self.put_surface(i, id, surface);
                requests
            },
            None => Vec::new(),
        }
    }

    /// Puts `surface` back at position `i`, where a surface is filed under
    /// `id`.
    fn put_surface(&mut self, i: usize, id: u32, surface: LayerSurface)
        requires
            old(self).wf(),
            i < old(self)@.surfaces.len(),
            old(self)@.surfaces[i as int].0 == id,
        ensures
            final(self).wf(),
            final(self)@ == (SessionView {
                surfaces: old(self)@.surfaces.update(i as int, (id, surface@)),
                ..old(self)@
            }),
    {
        self.layer_surfaces.set(i, (id, surface));
        proof {
            assert(self@.surfaces =~= old(self)@.surfaces.update(i as int, (id, surface@)));
            assert forall|a: int, b: int| 0 <= a < b < self@.surfaces.len() implies (
            #[trigger] self@.surfaces[a]).0 != (#[trigger] self@.surfaces[b]).0 by {
                assert(old(self)@.surfaces[a].0 != old(self)@.surfaces[b].0);
            }
        }
    }

    fn on_global(&mut self, name: u32, interface: &str, version: u32) -> (requests: Vec<Request>)
        requires
            old(self).wf(),
        ensures
            final(self).wf(),
            final(self)@ == old(self)@.after_global(name, interface@),
            requests@ == global_requests(name, interface@, version),
    {
        let mut requests: Vec<Request> = Vec::new();
        let bound = if same_text(interface, "wl_output") {
            self.monitors.push(Monitor::new(name, name));
            Some(Interface::Output)
        } else if same_text(interface, "wl_compositor") {
            self.compositor = Some(name);
            Some(Interface::Compositor)
        } else if same_text(interface, "zwlr_layer_shell_v1") {
            self.layer_shell = Some(name);
            Some(Interface::LayerShell)
        } else if same_text(interface, "wl_shm") {
            self.shm = Some(name);
            Some(Interface::Shm)
        } else if same_text(interface, "wp_viewporter") {
            self.viewporter = Some(name);
            Some(Interface::Viewporter)
        } else {
            None
        };
        if let Some(interface) = bound {
            requests.push(Request::Bind { name, interface, version });
        }
        assert(requests@ =~= global_requests(name, interface@, version));
        requests
    }

    fn on_global_remove(&mut self, name: u32)
        requires
            old(self).wf(),
        ensures
            final(self).wf(),
            final(self)@ == old(self)@.after(Event::GlobalRemove { name }),
    {
        let mut kept: Vec<Monitor> = Vec::new();
        let mut i: usize = 0;
        while i < self.monitors.len()
            invariant
                0 <= i <= self.monitors.len(),
                kept@ == without_name(self.monitors@.take(i as int), name),
            decreases self.monitors.len() - i,
        {
            proof {
                assert(self.monitors@.take(i as int + 1).drop_last() =~= self.monitors@.take(
                    i as int,
                ));
            }
            if self.monitors[i].name != name {
                kept.push(self.monitors[i]);
            }
            i += 1;
        }
        proof {
            assert(self.monitors@.take(self.monitors@.len() as int) =~= self.monitors@);
        }
        self.monitors = kept;
    }

    fn find_monitor(&self, output: u32) -> (at: Option<usize>)
        ensures
            match at {
                Some(i) => {
                    &&& is_first_monitor(self@.monitors, output, i as int)
                    &&& has_monitor(self@.monitors, output)
                    &&& monitor_position(self@.monitors, output) == i
                },
                None => !has_monitor(self@.monitors, output),
            },
    {
        let mut i: usize = 0;
        while i < self.monitors.len()
            invariant
                0 <= i <= self.monitors.len(),
                forall|j: int| 0 <= j < i ==> (#[trigger] self.monitors@[j]).output != output,
            decreases self.monitors.len() - i,
        {
            if self.monitors[i].output == output {
                proof {
                    lemma_first_monitor_is(self@.monitors, output, i as int);
                }
                return Some(i);
            }
            i += 1;
        }
        None
    }

    fn on_release(&mut self, buffer: u32)
        requires
            old(self).wf(),
        ensures
            final(self).wf(),
            final(self)@ == old(self)@.after(Event::BufferRelease { buffer }),
    {
        let mut i: usize = 0;
        while i < self.layer_surfaces.len()
            invariant
                0 <= i <= self.layer_surfaces.len(),
                self.layer_surfaces@.len() == old(self).layer_surfaces@.len(),
                self.monitors == old(self).monitors,
                self.shm == old(self).shm,
                self.layer_shell == old(self).layer_shell,
                self.compositor == old(self).compositor,
                self.viewporter == old(self).viewporter,
                forall|j: int|
                    0 <= j < i ==> #[trigger] self@.surfaces[j] == all_released(
                        old(self)@.surfaces,
                        buffer,
                    )[j],
                forall|j: int|
                    i <= j < self.layer_surfaces@.len() ==> #[trigger] self@.surfaces[j] == old(
                        self,
                    )@.surfaces[j],
            decreases self.layer_surfaces.len() - i,
        {
            let ghost before = self@.surfaces;
            let (id, mut surface) = self.layer_surfaces[i];
            surface.handle_release(buffer);
            self.layer_surfaces.set(i, (id, surface));
            proof {
                assert(before[i as int] == old(self)@.surfaces[i as int]);
                assert forall|j: int| 0 <= j < i + 1 implies #[trigger] self@.surfaces[j]
                    == all_released(old(self)@.surfaces, buffer)[j] by {
                    if j < i {
                        assert(self@.surfaces[j] == before[j]);
                    }
                }
                assert forall|j: int|
                    i + 1 <= j < self.layer_surfaces@.len() implies #[trigger] self@.surfaces[j]
                    == old(self)@.surfaces[j] by {
                    assert(self@.surfaces[j] == before[j]);
                }
            }
            i += 1;
        }
        proof {
            assert(self@.surfaces =~= all_released(old(self)@.surfaces, buffer));
            assert forall|a: int, b: int| 0 <= a < b < self@.surfaces.len() implies (
            #[trigger] self@.surfaces[a]).0 != (#[trigger] self@.surfaces[b]).0 by {
                assert(old(self)@.surfaces[a].0 != old(self)@.surfaces[b].0);
            }
        }
    }

    fn on_closed(&mut self, id: u32)
        requires
            old(self).wf(),
        ensures
            final(self).wf(),
            final(self)@ == old(self)@.after(Event::LayerClosed { surface: id }),
    {
        if let Some(i) = self.find_surface(id) {
            self.layer_surfaces.remove(i);
            proof {
                assert(self@.surfaces =~= old(self)@.surfaces.remove(i as int));
                assert forall|a: int, b: int| 0 <= a < b < self@.surfaces.len() implies (
                #[trigger] self@.surfaces[a]).0 != (#[trigger] self@.surfaces[b]).0 by {
                    let a0 = if a < i { a } else { a + 1 };
                    let b0 = if b < i { b } else { b + 1 };
                    assert(old(self)@.surfaces[a0].0 != old(self)@.surfaces[b0].0);
                }
            }
        }
    }

    /// Takes one event of the compositor, changes the session accordingly
    /// and returns the requests that answer it, in order.
    pub fn handle_event(&mut self, event: Event) -> (requests: Vec<Request>)
        requires
            old(self).wf(),
        ensures
            final(self).wf(),
            final(self)@ == old(self)@.after(event),
            requests@ == old(self)@.emitted(event),
    {
        match event {
            Event::Global { name, interface, version } => self.on_global(
                name,
                interface.as_str(),
                version,
            ),
            Event::GlobalRemove { name } => {
                self.on_global_remove(name);
                Vec::new()
            },
            Event::OutputGeometry { output, x, y } => {
                if let Some(i) = self.find_monitor(output) {
                    let mut monitor = self.monitors[i];
                    monitor.x = x;
                    monitor.y = y;
                    self.monitors.set(i, monitor);
                }
                assert(self@.surfaces == old(self)@.surfaces);
                Vec::new()
            },
            Event::OutputMode { output, width, height, refresh } => {
                if let Some(i) = self.find_monitor(output) {
                    let mut monitor = self.monitors[i];
                    monitor.width = width;
                    monitor.height = height;
                    monitor.refresh = refresh;
                    self.monitors.set(i, monitor);
                }
                assert(self@.surfaces == old(self)@.surfaces);
                Vec::new()
            },
            Event::OutputDone { output } => Vec::new(),
            Event::BufferRelease { buffer } => {
                self.on_release(buffer);
                Vec::new()
            },
            Event::LayerConfigure { surface, serial, width, height } => {
                match self.find_surface(surface) {
                    Some(i) => {
                        let mut target = self.layer_surfaces[i].1;
                        let requests = target.handle_configure(serial);
                        self.put_surface(i, surface, target);
                        requests
                    },
                    None => Vec::new(),
                }
            },
            Event::LayerClosed { surface } => {
                self.on_closed(surface);
                Vec::new()
            },
            Event::FrameDone { surface, callback } => {
                match self.find_surface(surface) {
                    Some(i) => {
                        let mut target = self.layer_surfaces[i].1;
                        let requests = target.handle_frame(callback);
                        self.put_surface(i, surface, target);
                        requests
                    },
                    None => Vec::new(),
                }
            },
        }
    }
}

} // verus!
