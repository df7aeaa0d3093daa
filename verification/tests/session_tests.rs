use wallpaper::display::monitor::Monitor;
use wallpaper::engine::backend::LayerSurface;
use wallpaper::engine::buffer::Buffer;
use wallpaper::engine::protocol::{Event, Interface, Request};
use wallpaper::utils::wayland::WaylandState;

fn global(name: u32, interface: &str, version: u32) -> Event {
    Event::Global { name, interface: interface.to_string(), version }
}

fn session_with_two_surfaces() -> WaylandState {
    let (mut state, _) = WaylandState::new();
    for id in [1u32, 2u32] {
        let mut surface = LayerSurface::new(id, id, false);
        surface.create();
        state.add_layer_surface(id, surface);
    }
    state
}

#[test]
fn new_session_asks_for_the_registry() {
    let (state, requests) = WaylandState::new();
    assert_eq!(requests, vec![Request::GetRegistry]);
    assert!(state.get_monitors().is_empty());
    assert_eq!(state.get_shm(), None);
    assert_eq!(state.get_compositor(), None);
    assert_eq!(state.get_layer_shell(), None);
    assert_eq!(state.get_viewporter(), None);
    assert_eq!(state.surface_count(), 0);
    assert!(state.all_surfaces_configured());
}

#[test]
fn globals_that_are_used_get_bound() {
    let (mut state, _) = WaylandState::new();
    assert_eq!(
        state.handle_event(global(1, "wl_compositor", 5)),
        vec![Request::Bind { name: 1, interface: Interface::Compositor, version: 5 }]
    );
    assert_eq!(
        state.handle_event(global(2, "wl_shm", 1)),
        vec![Request::Bind { name: 2, interface: Interface::Shm, version: 1 }]
    );
    assert_eq!(
        state.handle_event(global(3, "zwlr_layer_shell_v1", 4)),
        vec![Request::Bind { name: 3, interface: Interface::LayerShell, version: 4 }]
    );
    assert_eq!(
        state.handle_event(global(4, "wp_viewporter", 1)),
        vec![Request::Bind { name: 4, interface: Interface::Viewporter, version: 1 }]
    );
    assert_eq!(
        state.handle_event(global(5, "wl_output", 3)),
        vec![Request::Bind { name: 5, interface: Interface::Output, version: 3 }]
    );
    assert!(state.handle_event(global(6, "wl_seat", 7)).is_empty());
    assert_eq!(state.get_compositor(), Some(1));
    assert_eq!(state.get_shm(), Some(2));
    assert_eq!(state.get_layer_shell(), Some(3));
    assert_eq!(state.get_viewporter(), Some(4));
    assert_eq!(state.get_monitors(), &[Monitor::new(5, 5)]);
}

#[test]
fn geometry_and_mode_go_to_the_output() {
    let (mut state, _) = WaylandState::new();
    state.handle_event(global(5, "wl_output", 3));
    state.handle_event(global(6, "wl_output", 3));
    assert!(state.handle_event(Event::OutputGeometry { output: 6, x: 1920, y: 0 }).is_empty());
    assert!(state
        .handle_event(Event::OutputMode { output: 6, width: 2560, height: 1440, refresh: 60000 })
        .is_empty());
    assert!(state.handle_event(Event::OutputMode { output: 9, width: 1, height: 1, refresh: 1 })
        .is_empty());
    assert!(state.handle_event(Event::OutputDone { output: 6 }).is_empty());
    assert_eq!(
        state.get_monitors(),
        &[
            Monitor::new(5, 5),
            Monitor {
                output: 6,
                name: 6,
                x: 1920,
                y: 0,
                width: 2560,
                height: 1440,
                refresh: 60000,
                scale: 1
            },
        ]
    );
}

#[test]
fn removed_output_leaves_the_session() {
    let (mut state, _) = WaylandState::new();
    state.handle_event(global(5, "wl_output", 3));
    state.handle_event(global(6, "wl_output", 3));
    state.handle_event(global(7, "wl_output", 3));
    assert!(state.handle_event(Event::GlobalRemove { name: 6 }).is_empty());
    assert_eq!(state.get_monitors(), &[Monitor::new(5, 5), Monitor::new(7, 7)]);
    state.handle_event(Event::GlobalRemove { name: 99 });
    assert_eq!(state.get_monitors().len(), 2);
}

#[test]
fn configure_goes_to_the_surface_it_names() {
    let mut state = session_with_two_surfaces();
    let sent = state.handle_event(Event::LayerConfigure {
        surface: 2,
        serial: 17,
        width: 800,
        height: 600,
    });
    assert_eq!(sent, vec![Request::AckConfigure { surface: 2, serial: 17 }]);
    assert!(!state.get_layer_surface(1).unwrap().is_configured());
    assert!(state.get_layer_surface(2).unwrap().is_configured());
    assert!(!state.all_surfaces_configured());
    assert!(state
        .handle_event(Event::LayerConfigure { surface: 3, serial: 1, width: 1, height: 1 })
        .is_empty());
    state.handle_event(Event::LayerConfigure { surface: 1, serial: 18, width: 1, height: 1 });
    assert!(state.all_surfaces_configured());
}

#[test]
fn closed_surface_is_removed_from_the_session() {
    let mut state = session_with_two_surfaces();
    assert!(state.handle_event(Event::LayerClosed { surface: 1 }).is_empty());
    assert_eq!(state.surface_count(), 1);
    assert!(state.get_layer_surface(1).is_none());
    assert!(state.attach_buffer(1, &Buffer::new(1, 1, 1)).is_empty());
    assert!(state
        .handle_event(Event::LayerConfigure { surface: 1, serial: 1, width: 1, height: 1 })
        .is_empty());
    assert!(state.handle_event(Event::LayerClosed { surface: 1 }).is_empty());
    assert_eq!(state.surface_count(), 1);
}

#[test]
fn frame_done_goes_to_the_surface_it_names() {
    let mut state = session_with_two_surfaces();
    state.attach_buffer(1, &Buffer::new(1, 1, 9));
    state.attach_buffer(2, &Buffer::new(1, 1, 9));
    let sent = state.handle_event(Event::FrameDone { surface: 1, callback: 0 });
    assert_eq!(sent, vec![Request::Frame { surface: 1 }, Request::Commit { surface: 1 }]);
}

#[test]
fn release_reaches_every_surface_that_shows_the_buffer() {
    let mut state = session_with_two_surfaces();
    for id in [1u32, 2u32] {
        state.handle_event(Event::LayerConfigure { surface: id, serial: 1, width: 1, height: 1 });
    }
    let mut shown = Buffer::new(1, 1, 9);
    shown.set_released(false);
    state.attach_buffer(1, &shown);
    state.attach_buffer(2, &shown);
    assert!(state.handle_event(Event::BufferRelease { buffer: 9 }).is_empty());
    assert!(state.get_layer_surface(1).unwrap().current_buffer().unwrap().released);
    assert!(state.get_layer_surface(2).unwrap().current_buffer().unwrap().released);
}

#[test]
fn add_layer_surface_replaces_under_the_same_handle() {
    let mut state = session_with_two_surfaces();
    state.add_layer_surface(2, LayerSurface::new(2, 44, true));
    assert_eq!(state.surface_count(), 2);
    assert_eq!(state.get_layer_surface(2).unwrap().output(), 44);
}
