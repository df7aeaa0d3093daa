use crate::engine::buffer::Buffer;
use crate::engine::protocol::{KeyboardInteractivity, Layer, Request};
use vstd::prelude::*;

verus! {

/// Where a layer surface stands in its life.
#[derive(Debug, Clone, Copy, PartialEq, Eq, Structural)]
pub enum SurfaceState {
    /// Known to this library only; nothing was sent yet.
    Created,
    /// Set up and committed empty; the first configure is awaited.
    AwaitingConfigure,
    /// At least one configure was acknowledged; buffers go out at once.
    Configured,
    /// The compositor closed the surface. Nothing is sent for it any more.
    Closed,
}

/// All that is known of one layer surface.
#[derive(Debug, Clone, Copy)]
pub struct SurfaceView {
    /// Handle of the surface and of the objects that belong to it.
    pub surface: u32,
    /// Handle of the output that the surface covers.
    pub output: u32,
    /// Whether the surface has a viewport.
    pub viewport: bool,
    pub state: SurfaceState,
    /// Whether a configure was ever acknowledged.
    pub acked: bool,
    /// The buffer that waits for the first configure, if any.
    pub pending_buffer: Option<Buffer>,
    /// The buffer attached last, whose release is to be tracked.
    pub current_buffer: Option<Buffer>,
    /// Whether a frame callback is outstanding.
    pub frame_requested: bool,
    /// Whether the compositor is ready for the next frame.
    pub frame_done: bool,
}

/// What can happen to a layer surface: one variant for each method of
/// `LayerSurface` that changes it.
#[allow(inconsistent_fields)]
pub enum SurfaceInput {
    Create,
    Configure { serial: u32 },
    Attach { buffer: Buffer },
    Frame { callback: u32 },
    Release { buffer: u32 },
    SetConfigured { configured: bool },
    TakePending,
    Close,
}

impl SurfaceView {
    /// A surface of which nothing was sent yet.
    pub open spec fn fresh(surface: u32, output: u32, viewport: bool) -> SurfaceView {
        SurfaceView {
            surface,
            output,
            viewport,
            state: SurfaceState::Created,
            acked: false,
            pending_buffer: None,
            current_buffer: None,
            frame_requested: false,
            frame_done: true,
        }
    }

    /// The requests that instantiate the surface: a surface anchored to all
    /// four edges of its output on the background layer, with no keyboard
    /// focus and an empty input region, a first frame callback, and the
    /// empty commit that makes the compositor send the first configure.
    pub open spec fn setup_requests(self) -> Seq<Request> {
        let s = self.surface;
        let head = seq![Request::CreateSurface { surface: s }];
        let view = if self.viewport {
            seq![Request::GetViewport { surface: s }]
        } else {
            Seq::<Request>::empty()
        };
        let tail = seq![
            Request::GetLayerSurface { surface: s, output: self.output, layer: Layer::Background },
            Request::SetSize { surface: s, width: 0, height: 0 },
            Request::SetAnchor { surface: s, top: true, bottom: true, left: true, right: true },
            Request::SetExclusiveZone { surface: s, zone: -1i32 },
            Request::SetKeyboardInteractivity {
                surface: s,
                mode: KeyboardInteractivity::Disabled,
            },
            Request::SetEmptyInputRegion { surface: s },
            Request::SetBufferScale { surface: s, scale: 1 },
            Request::Frame { surface: s },
            Request::Commit { surface: s },
        ];
        head + view + tail
    }

    /// The requests that show `buffer` on the surface: attach it at the
    /// origin, stretch it over the viewport where there is one, commit.
    pub open spec fn attach_requests(self, buffer: Buffer) -> Seq<Request> {
        let s = self.surface;
        let attach = seq![Request::Attach { surface: s, buffer: buffer.buffer, x: 0, y: 0 }];
        let stretch = if self.viewport {
            seq![
                Request::SetDestination { surface: s, width: buffer.width, height: buffer.height },
            ]
        } else {
            Seq::<Request>::empty()
        };
        attach + stretch + seq![Request::Commit { surface: s }]
    }

    pub open spec fn is_closed(self) -> bool {
        self.state == SurfaceState::Closed
    }

    pub open spec fn is_configured(self) -> bool {
        self.state == SurfaceState::Configured
    }

    /// The surface after one input.
    pub open spec fn next(self, input: SurfaceInput) -> SurfaceView {
        match input {
            SurfaceInput::Create => if self.state == SurfaceState::Created {
                SurfaceView {
                    state: SurfaceState::AwaitingConfigure,
                    frame_requested: true,
                    ..self
                }
            } else {
                self
            },
            SurfaceInput::Configure { serial } => if self.is_closed() {
                self
            } else if self.is_configured() {
                SurfaceView { acked: true, ..self }
            } else {
                SurfaceView {
                    state: SurfaceState::Configured,
                    acked: true,
                    pending_buffer: None,
                    current_buffer: if self.pending_buffer is Some {
                        self.pending_buffer
                    } else {
                        self.current_buffer
                    },
                    ..self
                }
            },
            SurfaceInput::Attach { buffer } => if self.is_closed() {
                self
            } else if self.is_configured() {
                SurfaceView { current_buffer: Some(buffer), ..self }
            } else {
                SurfaceView { pending_buffer: Some(buffer), ..self }
            },
            SurfaceInput::Frame { callback } => if self.is_closed() {
                self
            } else if self.pending_buffer is Some {
                SurfaceView { frame_requested: true, frame_done: false, ..self }
            } else {
                SurfaceView { frame_requested: false, frame_done: true, ..self }
            },
            SurfaceInput::Release { buffer } => match self.current_buffer {
                Some(current) if current.buffer == buffer => SurfaceView {
                    current_buffer: Some(current.with_released(true)),
                    ..self
                },
                _ => self,
            },
            SurfaceInput::SetConfigured { configured } => if self.is_closed() {
                self
            } else if configured {
                if self.acked {
                    SurfaceView { state: SurfaceState::Configured, ..self }
                } else {
                    self
                }
            } else if self.is_configured() {
                SurfaceView { state: SurfaceState::AwaitingConfigure, ..self }
            } else {
                self
            },
            SurfaceInput::TakePending => SurfaceView { pending_buffer: None, ..self },
            SurfaceInput::Close => SurfaceView {
                state: SurfaceState::Closed,
                pending_buffer: None,
                ..self
            },
        }
    }

    /// The requests that one input makes the surface send, in order.
    pub open spec fn emitted(self, input: SurfaceInput) -> Seq<Request> {
        match input {
            SurfaceInput::Create => if self.state == SurfaceState::Created {
                self.setup_requests()
            } else {
                Seq::empty()
            },
            SurfaceInput::Configure { serial } => if self.is_closed() {
                Seq::empty()
            } else {
                let ack = seq![Request::AckConfigure { surface: self.surface, serial }];
                match self.pending_buffer {
                    Some(buffer) if !self.is_configured() => ack + self.attach_requests(buffer),
                    _ => ack,
                }
            },
            SurfaceInput::Attach { buffer } => if self.is_configured() {
                self.attach_requests(buffer)
            } else {
                Seq::empty()
            },
            SurfaceInput::Frame { callback } => if !self.is_closed() && self.pending_buffer
                is Some {
                seq![
                    Request::Frame { surface: self.surface },
                    Request::Commit { surface: self.surface },
                ]
            } else {
                Seq::empty()
            },
            _ => Seq::empty(),
        }
    }
}

/// The surface after a whole sequence of inputs, first to last.
pub open spec fn surface_after(start: SurfaceView, inputs: Seq<SurfaceInput>) -> SurfaceView
    decreases inputs.len(),
{
    if inputs.len() == 0 {
        start
    } else {
        surface_after(start, inputs.drop_last()).next(inputs.last())
    }
}

/// Everything the surface sends over a whole sequence of inputs, in order.
pub open spec fn surface_trace(start: SurfaceView, inputs: Seq<SurfaceInput>) -> Seq<Request>
    decreases inputs.len(),
{
    if inputs.len() == 0 {
        Seq::empty()
    } else {
        surface_trace(start, inputs.drop_last()) + surface_after(
            start,
            inputs.drop_last(),
        ).emitted(inputs.last())
    }
}

/// Whether `request` acknowledges a configure of `surface`.
pub open spec fn is_ack_of(request: Request, surface: u32) -> bool {
    request matches Request::AckConfigure { surface: s, .. } && s == surface
}

/// Whether `request` attaches a buffer to `surface`.
pub open spec fn is_attach_to(request: Request, surface: u32) -> bool {
    request matches Request::Attach { surface: s, .. } && s == surface
}

/// Whether `requests` holds, before position `end`, the acknowledgment of a
/// configure of `surface`.
pub open spec fn acked_before(requests: Seq<Request>, surface: u32, end: int) -> bool {
    exists|j: int| 0 <= j < end && j < requests.len() && is_ack_of(#[trigger] requests[j], surface)
}

/// Whether every attach in `requests` comes after the acknowledgment of a
/// configure of the same surface.
pub open spec fn attaches_follow_ack(requests: Seq<Request>) -> bool {
    forall|i: int, surface: u32|
        0 <= i < requests.len() && is_attach_to(#[trigger] requests[i], surface) ==> #[trigger] acked_before(
            requests,
            surface,
            i,
        )
}

proof fn lemma_ack_stays(head: Seq<Request>, out: Seq<Request>, surface: u32, end: int)
    requires
        acked_before(head, surface, end),
    ensures
        acked_before(head + out, surface, end),
{
    let j = choose|j: int| 0 <= j < end && j < head.len() && is_ack_of(#[trigger] head[j], surface);
    assert((head + out)[j] == head[j]);
}

proof fn lemma_ack_later(requests: Seq<Request>, surface: u32, end: int, later: int)
    requires
        acked_before(requests, surface, end),
        end <= later,
    ensures
        acked_before(requests, surface, later),
{
    let j = choose|j: int|
        0 <= j < end && j < requests.len() && is_ack_of(#[trigger] requests[j], surface);
    assert(0 <= j < later && j < requests.len() && is_ack_of(requests[j], surface));
}

proof fn lemma_trace_invariant(start: SurfaceView, inputs: Seq<SurfaceInput>)
    requires
        !start.acked,
        !start.is_configured(),
    ensures
        surface_after(start, inputs).surface == start.surface,
        surface_after(start, inputs).is_configured() ==> surface_after(start, inputs).acked,
        surface_after(start, inputs).acked ==> acked_before(
            surface_trace(start, inputs),
            start.surface,
            surface_trace(start, inputs).len() as int,
        ),
        attaches_follow_ack(surface_trace(start, inputs)),
    decreases inputs.len(),
{
    if inputs.len() > 0 {
        let before = inputs.drop_last();
        let input = inputs.last();
        lemma_trace_invariant(start, before);
        let s = surface_after(start, before);
        let head = surface_trace(start, before);
        let out = s.emitted(input);
        let all = surface_trace(start, inputs);
        let id = start.surface;
        let n = head.len() as int;
        assert(all == head + out);
        let acks_now = input is Configure && !s.is_closed();
        if acks_now {
            assert(all[n] == out[0]);
            assert(is_ack_of(all[n], id));
            assert(acked_before(all, id, n + 1));
            lemma_ack_later(all, id, n + 1, all.len() as int);
        }
        if s.acked {
            lemma_ack_stays(head, out, id, n);
            lemma_ack_later(all, id, n, all.len() as int);
        }
        assert forall|i: int, surface: u32|
            0 <= i < all.len() && is_attach_to(#[trigger] all[i], surface) implies #[trigger] acked_before(
            all,
            surface,
            i,
        ) by {
            if i < n {
                assert(all[i] == head[i]);
                assert(acked_before(head, surface, i));
                lemma_ack_stays(head, out, surface, i);
            } else {
                let k = i - n;
                assert(all[i] == out[k]);
                assert(surface == id);
                match input {
                    SurfaceInput::Configure { serial } => {
                        assert(k >= 1);
                        lemma_ack_later(all, id, n + 1, i);
                    },
                    SurfaceInput::Attach { buffer } => {
                        assert(s.is_configured());
                        lemma_ack_later(all, id, n, i);
                    },
                    _ => {},
                }
            }
        }
    }
}

/// No buffer goes out before the first acknowledgment: whatever is done to
/// a new surface, in whatever order, every attach that it sends comes after
/// the acknowledgment of a configure.
pub proof fn lemma_no_attach_before_ack(
    surface: u32,
    output: u32,
    viewport: bool,
    inputs: Seq<SurfaceInput>,
)
    ensures
        attaches_follow_ack(
            surface_trace(SurfaceView::fresh(surface, output, viewport), inputs),
        ),
{
    lemma_trace_invariant(SurfaceView::fresh(surface, output, viewport), inputs);
}

/// One layer surface: the per-output state machine over the handshake of
/// configure, attach and frame.
///
/// The methods return the requests that the caller has to send, in order.
/// A buffer handed to `attach_buffer` before the first configure waits and
/// goes out when that configure is acknowledged.
#[derive(Debug, Clone, Copy)]
pub struct LayerSurface {
    inner: SurfaceView,
}

impl View for LayerSurface {
    type V = SurfaceView;

    closed spec fn view(&self) -> SurfaceView {
        self.inner
    }
}

fn attach_sequence(view: &SurfaceView, buffer: &Buffer) -> (requests: Vec<Request>)
    ensures
        requests@ == view.attach_requests(*buffer),
{
    let mut requests: Vec<Request> = Vec::new();
    requests.push(Request::Attach { surface: view.surface, buffer: buffer.buffer, x: 0, y: 0 });
    if view.viewport {
        requests.push(
            Request::SetDestination {
                surface: view.surface,
                width: buffer.width,
                height: buffer.height,
            },
        );
    }
    requests.push(Request::Commit { surface: view.surface });
    assert(requests@ =~= view.attach_requests(*buffer));
    requests
}

impl LayerSurface {
    /// A surface for `output`, known as `surface`, with a viewport if the
    /// compositor offers one. Nothing is sent before `create`.
    pub fn new(surface: u32, output: u32, viewport: bool) -> (s: LayerSurface)
        ensures
            s@ == SurfaceView::fresh(surface, output, viewport),
    {
        LayerSurface {
            inner: SurfaceView {
                surface,
                output,
                viewport,
                state: SurfaceState::Created,
                acked: false,
                pending_buffer: None,
                current_buffer: None,
                frame_requested: false,
                frame_done: true,
            },
        }
    }

    /// Instantiates the surface: on a surface that is `Created`, returns the
    /// setup requests, which end in the empty commit, and awaits the first
    /// configure. On any other surface nothing happens.
    pub fn create(&mut self) -> (requests: Vec<Request>)
        ensures
            final(self)@ == old(self)@.next(SurfaceInput::Create),
            requests@ == old(self)@.emitted(SurfaceInput::Create),
    {
        let mut requests: Vec<Request> = Vec::new();
        if self.inner.state == SurfaceState::Created {
            let s: u32 = self.inner.surface;
            requests.push(Request::CreateSurface { surface: s });
            if self.inner.viewport {
                requests.push(Request::GetViewport { surface: s });
            }
            requests.push(
                Request::GetLayerSurface {
                    surface: s,
                    output: self.inner.output,
                    layer: Layer::Background,
                },
            );
            requests.push(Request::SetSize { surface: s, width: 0, height: 0 });
            requests.push(
                Request::SetAnchor { surface: s, top: true, bottom: true, left: true, right: true },
            );
            requests.push(Request::SetExclusiveZone { surface: s, zone: -1 });
            requests.push(
                Request::SetKeyboardInteractivity {
                    surface: s,
                    mode: KeyboardInteractivity::Disabled,
                },
            );
            requests.push(Request::SetEmptyInputRegion { surface: s });
            requests.push(Request::SetBufferScale { surface: s, scale: 1 });
            requests.push(Request::Frame { surface: s });
            requests.push(Request::Commit { surface: s });
            self.inner.state = SurfaceState::AwaitingConfigure;
            self.inner.frame_requested = true;
            assert(requests@ =~= old(self)@.setup_requests());
        }
        requests
    }

    /// Shows `buffer` on the surface. A configured surface attaches and
    /// commits it at once and tracks it as the buffer on screen; before the
    /// first configure the buffer waits, replacing one that waited before;
    /// a closed surface ignores it.
    pub fn attach_buffer(&mut self, buffer: &Buffer) -> (requests: Vec<Request>)
        ensures
            final(self)@ == old(self)@.next(SurfaceInput::Attach { buffer: *buffer }),
            requests@ == old(self)@.emitted(SurfaceInput::Attach { buffer: *buffer }),
    {
        if self.inner.state == SurfaceState::Closed {
            Vec::new()
        } else if self.inner.state == SurfaceState::Configured {
            self.inner.current_buffer = Some(*buffer);
            attach_sequence(&self.inner, buffer)
        } else {
            self.inner.pending_buffer = Some(*buffer);
            Vec::new()
        }
    }

    /// Handle of the surface.
    pub fn surface(&self) -> (id: u32)
        ensures
            id == self@.surface,
    {
        self.inner.surface
    }

    /// Handle of the layer role of the surface, which is that of the
    /// surface itself.
    pub fn layer(&self) -> (id: u32)
        ensures
            id == self@.surface,
    {
        self.inner.surface
    }

    /// Handle of the output that the surface covers.
    pub fn output(&self) -> (id: u32)
        ensures
            id == self@.output,
    {
        self.inner.output
    }

    /// Answers a configure event: every serial is acknowledged, whether a
    /// buffer is ready or not. The first configure also sends the buffer
    /// that waited, if any. A closed surface sends nothing.
    pub fn handle_configure(&mut self, serial: u32) -> (requests: Vec<Request>)
        ensures
            final(self)@ == old(self)@.next(SurfaceInput::Configure { serial }),
            requests@ == old(self)@.emitted(SurfaceInput::Configure { serial }),
    {
        let mut requests: Vec<Request> = Vec::new();
        if self.inner.state == SurfaceState::Closed {
            return requests;
        }
        requests.push(Request::AckConfigure { surface: self.inner.surface, serial });
        self.inner.acked = true;
        if self.inner.state != SurfaceState::Configured {
            self.inner.state = SurfaceState::Configured;
            if let Some(buffer) = self.inner.pending_buffer {
                self.inner.pending_buffer = None;
                self.inner.current_buffer = Some(buffer);
                let mut attach = attach_sequence(&self.inner, &buffer);
                requests.append(&mut attach);
                assert(requests@ =~= old(self)@.emitted(SurfaceInput::Configure { serial }));
            }
        }
        requests
    }

    /// Answers a frame callback: the compositor is ready for the next
    /// frame. If a buffer waits, a new callback is requested and a commit
    /// issued at once, so that redraw follows the compositor's pace.
    pub fn handle_frame(&mut self, callback: u32) -> (requests: Vec<Request>)
        ensures
            final(self)@ == old(self)@.next(SurfaceInput::Frame { callback }),
            requests@ == old(self)@.emitted(SurfaceInput::Frame { callback }),
    {
        let mut requests: Vec<Request> = Vec::new();
        if self.inner.state == SurfaceState::Closed {
            return requests;
        }
        if self.inner.pending_buffer.is_some() {
            requests.push(Request::Frame { surface: self.inner.surface });
            requests.push(Request::Commit { surface: self.inner.surface });
            self.inner.frame_requested = true;
            self.inner.frame_done = false;
            assert(requests@ =~= old(self)@.emitted(SurfaceInput::Frame { callback }));
        } else {
            self.inner.frame_requested = false;
            self.inner.frame_done = true;
        }
        requests
    }

    /// Records that the compositor released the buffer `buffer`, if that is
    /// the buffer attached last.
    pub fn handle_release(&mut self, buffer: u32)
        ensures
            final(self)@ == old(self)@.next(SurfaceInput::Release { buffer }),
    {
        if let Some(current) = self.inner.current_buffer {
            if current.buffer == buffer {
                let mut released = current;
                released.set_released(true);
                self.inner.current_buffer = Some(released);
            }
        }
    }

    /// Records that the compositor closed the surface. A buffer that still
    /// waited is dropped.
    pub fn close(&mut self)
        ensures
            final(self)@ == old(self)@.next(SurfaceInput::Close),
    {
        self.inner.state = SurfaceState::Closed;
        self.inner.pending_buffer = None;
    }

    pub fn is_draw_ready(&self) -> (r: bool)
        ensures
            r == (self@.frame_done && self@.is_configured()),
    {
        self.inner.frame_done && self.inner.state == SurfaceState::Configured
    }

    pub fn is_configured(&self) -> (r: bool)
        ensures
            r == self@.is_configured(),
    {
        self.inner.state == SurfaceState::Configured
    }

    pub fn is_closed(&self) -> (r: bool)
        ensures
            r == self@.is_closed(),
    {
        self.inner.state == SurfaceState::Closed
    }

    /// Sets or clears the configured state by hand. A surface that never
    /// acknowledged a configure cannot be declared configured, and a closed
    /// surface stays closed.
    pub fn set_configured(&mut self, configured: bool)
        ensures
            final(self)@ == old(self)@.next(SurfaceInput::SetConfigured { configured }),
    {
        if self.inner.state == SurfaceState::Closed {
        } else if configured {
            if self.inner.acked {
                self.inner.state = SurfaceState::Configured;
            }
        } else if self.inner.state == SurfaceState::Configured {
            self.inner.state = SurfaceState::AwaitingConfigure;
        }
    }

    /// Removes and returns the buffer that waits for the first configure.
    pub fn take_pending_buffer(&mut self) -> (buffer: Option<Buffer>)
        ensures
            buffer == old(self)@.pending_buffer,
            final(self)@ == old(self)@.next(SurfaceInput::TakePending),
    {
        let buffer = self.inner.pending_buffer;
        self.inner.pending_buffer = None;
        buffer
    }

    /// The buffer that waits for the first configure, if any.
    pub fn pending_buffer(&self) -> (buffer: Option<Buffer>)
        ensures
            buffer == self@.pending_buffer,
    {
        self.inner.pending_buffer
    }

    /// The buffer attached last, if any.
    pub fn current_buffer(&self) -> (buffer: Option<Buffer>)
        ensures
            buffer == self@.current_buffer,
    {
        self.inner.current_buffer
    }

    pub fn state(&self) -> (state: SurfaceState)
        ensures
            state == self@.state,
    {
        self.inner.state
    }

    pub fn needs_redraw(&self) -> (r: bool)
        ensures
            r == (self@.pending_buffer is Some && self@.frame_done),
    {
        self.inner.pending_buffer.is_some() && self.inner.frame_done
    }
}

} // verus!
