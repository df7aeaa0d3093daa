use vstd::prelude::*;

verus! {

/// Name under which every layer surface of this program registers with the
/// layer shell.
pub const LAYER_NAMESPACE: &'static str = "wallpaper";

/// The capabilities of the compositor that a session binds.
#[derive(Debug, Clone, Copy, PartialEq, Eq, Structural)]
pub enum Interface {
    Output,
    Compositor,
    LayerShell,
    Shm,
    Viewporter,
}

/// Stacking layers of the layer shell, lowest first.
#[derive(Debug, Clone, Copy, PartialEq, Eq, Structural)]
pub enum Layer {
    Background,
    Bottom,
    Top,
    Overlay,
}

/// How a layer surface takes part in keyboard focus.
#[derive(Debug, Clone, Copy, PartialEq, Eq, Structural)]
pub enum KeyboardInteractivity {
    /// The surface never takes keyboard focus.
    Disabled,
    Exclusive,
    OnDemand,
}

/// Pixel formats of shared memory, named as the 32-bit little-endian word
/// reads: in memory an `Argb8888` pixel is the bytes blue, green, red, alpha.
#[derive(Debug, Clone, Copy, PartialEq, Eq, Structural)]
pub enum Format {
    Argb8888,
    Xrgb8888,
}

/// A typed request to the compositor. Objects are named by handles that
/// this library chooses; whoever performs the requests keeps the table from
/// handle to protocol object.
#[allow(inconsistent_fields)]
#[derive(Debug, Clone, Copy, PartialEq, Eq, Structural)]
pub enum Request {
    /// Ask for the registry, which then announces the globals.
    GetRegistry,
    /// Bind the global announced under `name`.
    Bind { name: u32, interface: Interface, version: u32 },
    /// Create a plain surface and know it as `surface`.
    CreateSurface { surface: u32 },
    /// Create the viewport of `surface`.
    GetViewport { surface: u32 },
    /// Give `surface` the layer-surface role on `output`, under
    /// `LAYER_NAMESPACE`.
    GetLayerSurface { surface: u32, output: u32, layer: Layer },
    SetSize { surface: u32, width: u32, height: u32 },
    SetAnchor { surface: u32, top: bool, bottom: bool, left: bool, right: bool },
    SetExclusiveZone { surface: u32, zone: i32 },
    SetKeyboardInteractivity { surface: u32, mode: KeyboardInteractivity },
    /// Give `surface` an empty input region.
    SetEmptyInputRegion { surface: u32 },
    SetBufferScale { surface: u32, scale: i32 },
    /// Ask for a frame callback on `surface`.
    Frame { surface: u32 },
    Commit { surface: u32 },
    AckConfigure { surface: u32, serial: u32 },
    Attach { surface: u32, buffer: u32, x: i32, y: i32 },
    /// Set the destination size of the viewport of `surface`.
    SetDestination { surface: u32, width: u32, height: u32 },
    /// Create the shared-memory pool `pool` over `size` bytes.
    CreatePool { pool: u32, size: i32 },
    CreateBuffer {
        pool: u32,
        buffer: u32,
        offset: i32,
        width: i32,
        height: i32,
        stride: i32,
        format: Format,
    },
    DestroyPool { pool: u32 },
    DestroyBuffer { buffer: u32 },
    /// Wait until the compositor has processed everything sent so far and
    /// all resulting events have been handled.
    Roundtrip,
}

/// A typed event from the compositor, already resolved to the handles of
/// this library.
#[allow(inconsistent_fields)]
#[derive(Debug)]
pub enum Event {
    Global { name: u32, interface: String, version: u32 },
    GlobalRemove { name: u32 },
    OutputGeometry { output: u32, x: i32, y: i32 },
    OutputMode { output: u32, width: i32, height: i32, refresh: i32 },
    OutputDone { output: u32 },
    BufferRelease { buffer: u32 },
    LayerConfigure { surface: u32, serial: u32, width: u32, height: u32 },
    LayerClosed { surface: u32 },
    FrameDone { surface: u32, callback: u32 },
}

} // verus!
