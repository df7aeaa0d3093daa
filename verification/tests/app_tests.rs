use memmap2::MmapMut;
use wallpaper::engine::app::{HandshakeStep, CONFIGURE_ATTEMPTS};
use wallpaper::engine::backend::SurfaceState;
use wallpaper::engine::protocol::{Event, Format, Interface, Request};
use wallpaper::{App, WallpaperError};

fn global(name: u32, interface: &str) -> Event {
    Event::Global { name, interface: interface.to_string(), version: 1 }
}

/// An orchestrator with the globals bound and one output for each size,
/// announced under the names 10, 11, ...
fn app_with_outputs(sizes: &[(i32, i32)], viewporter: bool) -> App {
    let mut app = App::new();
    app.init_wayland();
    app.handle_event(global(1, "wl_compositor"));
    app.handle_event(global(2, "wl_shm"));
    app.handle_event(global(3, "zwlr_layer_shell_v1"));
    if viewporter {
        app.handle_event(global(4, "wp_viewporter"));
    }
    for (i, (width, height)) in sizes.iter().enumerate() {
        let name = 10 + i as u32;
        app.handle_event(global(name, "wl_output"));
        app.handle_event(Event::OutputMode {
            output: name,
            width: *width,
            height: *height,
            refresh: 60000,
        });
    }
    app
}

fn install_pools(app: &mut App) {
    while let Some(size) = app.next_pool_size() {
        app.install_pool(MmapMut::map_anon(size).unwrap()).unwrap();
    }
}

fn configure_all(app: &mut App, names: &[u32]) {
    for name in names {
        app.handle_event(Event::LayerConfigure {
            surface: *name,
            serial: 1,
            width: 0,
            height: 0,
        });
    }
}

fn pixels(width: usize, height: usize) -> Vec<u8> {
    (0..width * height * 4).map(|i| (i % 251) as u8).collect()
}

#[test]
fn init_makes_two_roundtrips_after_the_registry() {
    let mut app = App::new();
    assert_eq!(
        app.init_wayland(),
        vec![Request::GetRegistry, Request::Roundtrip, Request::Roundtrip]
    );
    assert_eq!(
        app.handle_event(global(1, "wl_compositor")),
        vec![Request::Bind { name: 1, interface: Interface::Compositor, version: 1 }]
    );
}

#[test]
fn recreate_surfaces_needs_compositor_and_layer_shell() {
    let mut app = App::new();
    app.init_wayland();
    app.handle_event(global(1, "wl_compositor"));
    assert!(matches!(app.recreate_surfaces(), Err(WallpaperError::WaylandProtocol(_))));
    assert!(app.monitors().is_empty());
}

#[test]
fn recreate_surfaces_sets_up_one_surface_for_each_output() {
    let mut app = app_with_outputs(&[(4, 4), (2, 2)], false);
    let requests = app.recreate_surfaces().unwrap();
    assert_eq!(requests.len(), 21);
    assert_eq!(requests[0], Request::CreateSurface { surface: 10 });
    assert_eq!(requests[9], Request::Commit { surface: 10 });
    assert_eq!(requests[10], Request::CreateSurface { surface: 11 });
    assert_eq!(requests[20], Request::Roundtrip);
    assert_eq!(app.monitors().len(), 2);
    assert_eq!(app.state().surface_count(), 2);
    assert_eq!(
        app.state().get_layer_surface(11).unwrap().state(),
        SurfaceState::AwaitingConfigure
    );
}

#[test]
fn wait_for_configure_ends_when_all_are_configured() {
    let mut app = app_with_outputs(&[(4, 4)], false);
    app.recreate_surfaces().unwrap();
    assert_eq!(app.await_configured(), HandshakeStep::Roundtrip);
    assert_eq!(app.await_configured(), HandshakeStep::Roundtrip);
    configure_all(&mut app, &[10]);
    assert_eq!(app.await_configured(), HandshakeStep::Configured);
}

#[test]
fn wait_for_configure_makes_one_roundtrip_at_least() {
    let mut app = app_with_outputs(&[], false);
    app.recreate_surfaces().unwrap();
    assert_eq!(app.await_configured(), HandshakeStep::Roundtrip);
    assert_eq!(app.await_configured(), HandshakeStep::Configured);
}

#[test]
fn wait_for_configure_gives_up_after_ten_roundtrips() {
    let mut app = app_with_outputs(&[(4, 4)], false);
    app.recreate_surfaces().unwrap();
    for _ in 0..CONFIGURE_ATTEMPTS {
        assert_eq!(app.await_configured(), HandshakeStep::Roundtrip);
    }
    assert_eq!(app.await_configured(), HandshakeStep::Exhausted);
    assert_eq!(app.await_configured(), HandshakeStep::Exhausted);
    assert_eq!(CONFIGURE_ATTEMPTS, 10);
    app.preload("a.jpg", 4, 4, pixels(4, 4)).unwrap();
    install_pools(&mut app);
    let (requests, outcome) = app.set_wallpaper("a.jpg");
    assert!(outcome.is_ok());
    assert!(!requests.iter().any(|r| matches!(r, Request::Attach { .. })));
    let late = app.handle_event(Event::LayerConfigure {
        surface: 10,
        serial: 5,
        width: 0,
        height: 0,
    });
    assert_eq!(late[0], Request::AckConfigure { surface: 10, serial: 5 });
    assert_eq!(late[1], Request::Attach { surface: 10, buffer: 1, x: 0, y: 0 });
}

#[test]
fn one_decode_serves_two_outputs_of_different_size() {
    let mut app = app_with_outputs(&[(1920, 1080), (2560, 1440)], true);
    app.recreate_surfaces().unwrap();
    configure_all(&mut app, &[10, 11]);
    install_pools(&mut app);
    assert_eq!(app.pool_count(), 2);
    assert!(app.needs_source("a.jpg"));
    app.preload("a.jpg", 2560, 1440, pixels(2560, 1440)).unwrap();
    assert!(!app.needs_source("a.jpg"));
    let (requests, outcome) = app.set_wallpaper("a.jpg");
    assert!(outcome.is_ok());
    assert_eq!(app.decode_count(), 1);
    assert_eq!(app.resample_count(), 2);
    assert_eq!(app.cache_len(), 2);
    assert_eq!(app.current_wallpaper(), Some("a.jpg"));
    assert_eq!(
        requests,
        vec![
            Request::CreatePool { pool: 0, size: 1920 * 1080 * 8 },
            Request::CreateBuffer {
                pool: 0,
                buffer: 1,
                offset: 0,
                width: 1920,
                height: 1080,
                stride: 7680,
                format: Format::Argb8888,
            },
            Request::CreatePool { pool: 3, size: 2560 * 1440 * 8 },
            Request::CreateBuffer {
                pool: 3,
                buffer: 4,
                offset: 0,
                width: 2560,
                height: 1440,
                stride: 10240,
                format: Format::Argb8888,
            },
            Request::Attach { surface: 10, buffer: 1, x: 0, y: 0 },
            Request::SetDestination { surface: 10, width: 1920, height: 1080 },
            Request::Commit { surface: 10 },
            Request::Attach { surface: 11, buffer: 4, x: 0, y: 0 },
            Request::SetDestination { surface: 11, width: 2560, height: 1440 },
            Request::Commit { surface: 11 },
        ]
    );
}

#[test]
fn repeated_apply_hits_the_cache_and_resamples_nothing() {
    let mut app = app_with_outputs(&[(4, 2), (2, 2)], false);
    app.recreate_surfaces().unwrap();
    configure_all(&mut app, &[10, 11]);
    install_pools(&mut app);
    app.preload("a.jpg", 8, 4, pixels(8, 4)).unwrap();
    let (_, first) = app.set_wallpaper("a.jpg");
    assert!(first.is_ok());
    assert_eq!(app.resample_count(), 2);
    let (requests, second) = app.set_wallpaper("a.jpg");
    assert!(second.is_ok());
    assert_eq!(app.resample_count(), 2);
    assert_eq!(app.decode_count(), 1);
    assert_eq!(app.cache_len(), 2);
    assert_eq!(
        requests,
        vec![
            Request::Attach { surface: 10, buffer: 1, x: 0, y: 0 },
            Request::Commit { surface: 10 },
            Request::Attach { surface: 11, buffer: 4, x: 0, y: 0 },
            Request::Commit { surface: 11 },
        ]
    );
}

#[test]
fn unknown_monitor_is_refused_without_touching_a_surface() {
    let mut app = app_with_outputs(&[(4, 2)], false);
    app.recreate_surfaces().unwrap();
    configure_all(&mut app, &[10]);
    install_pools(&mut app);
    app.preload("a.jpg", 4, 2, pixels(4, 2)).unwrap();
    let before = app.state().get_layer_surface(10).unwrap();
    let (requests, outcome) = app.apply("a.jpg", Some("99"), "fill");
    assert!(requests.is_empty());
    match outcome {
        Err(WallpaperError::InvalidMonitor(text)) => assert_eq!(text, "99"),
        _ => panic!("there is no output 99"),
    }
    let after = app.state().get_layer_surface(10).unwrap();
    assert_eq!(after.current_buffer(), before.current_buffer());
    assert_eq!(after.pending_buffer(), before.pending_buffer());
    assert_eq!(after.state(), before.state());
    assert_eq!(app.current_wallpaper(), None);
    assert_eq!(app.resample_count(), 0);
    assert_eq!(app.cache_len(), 0);
}

#[test]
fn named_monitor_alone_gets_the_image() {
    let mut app = app_with_outputs(&[(4, 2), (2, 2)], false);
    app.recreate_surfaces().unwrap();
    configure_all(&mut app, &[10, 11]);
    install_pools(&mut app);
    app.preload("a.jpg", 4, 2, pixels(4, 2)).unwrap();
    let (requests, outcome) = app.apply("a.jpg", Some("11"), "stretch");
    assert!(outcome.is_ok());
    assert_eq!(app.cache_len(), 1);
    assert!(requests.contains(&Request::Attach { surface: 11, buffer: 4, x: 0, y: 0 }));
    assert!(!requests.iter().any(|r| matches!(r, Request::Attach { surface: 10, .. })));
    assert!(app.state().get_layer_surface(10).unwrap().current_buffer().is_none());
}

#[test]
fn unknown_monitor_is_reported_before_a_bad_scaling() {
    let mut app = app_with_outputs(&[(4, 2)], false);
    app.recreate_surfaces().unwrap();
    let (requests, outcome) = app.apply("a.jpg", Some("99"), "tile");
    assert!(requests.is_empty());
    assert!(matches!(outcome, Err(WallpaperError::InvalidMonitor(_))));
    let (requests, outcome) = app.apply("a.jpg", Some("10"), "tile");
    assert!(requests.is_empty());
    match outcome {
        Err(WallpaperError::InvalidScaling(text)) => assert_eq!(text, "tile"),
        _ => panic!("tile is no scaling mode"),
    }
    let (requests, outcome) = app.apply("a.jpg", None, "tile");
    assert!(requests.is_empty());
    assert!(matches!(outcome, Err(WallpaperError::InvalidScaling(_))));
    assert_eq!(app.current_wallpaper(), None);
}

#[test]
fn apply_fails_fast_and_attaches_nothing() {
    let mut app = app_with_outputs(&[(4, 2), (2, 2)], false);
    app.recreate_surfaces().unwrap();
    configure_all(&mut app, &[10, 11]);
    app.install_pool(MmapMut::map_anon(64).unwrap()).unwrap();
    app.preload("a.jpg", 4, 2, pixels(4, 2)).unwrap();
    let (requests, outcome) = app.set_wallpaper("a.jpg");
    assert!(matches!(outcome, Err(WallpaperError::Memory(_))));
    assert_eq!(requests.len(), 2);
    assert!(matches!(requests[0], Request::CreatePool { pool: 0, size: 64 }));
    assert!(app.state().get_layer_surface(10).unwrap().current_buffer().is_none());
    assert_eq!(app.cache_len(), 0);
    assert_eq!(app.current_wallpaper(), None);
    assert_eq!(app.resample_count(), 2);
}

#[test]
fn apply_fails_for_an_image_that_was_not_loaded() {
    let mut app = app_with_outputs(&[(4, 2)], false);
    app.recreate_surfaces().unwrap();
    install_pools(&mut app);
    let (requests, outcome) = app.set_wallpaper("missing.jpg");
    assert!(requests.is_empty());
    assert!(matches!(outcome, Err(WallpaperError::Image(_))));
    assert_eq!(app.resample_count(), 0);
}

#[test]
fn apply_fails_for_an_output_without_size() {
    let mut app = app_with_outputs(&[(0, 0)], false);
    app.recreate_surfaces().unwrap();
    assert_eq!(app.next_pool_size(), None);
    assert!(matches!(
        app.install_pool(MmapMut::map_anon(16).unwrap()),
        Err(WallpaperError::Memory(_))
    ));
    let (_, outcome) = app.set_wallpaper("a.jpg");
    assert!(matches!(outcome, Err(WallpaperError::InvalidMonitor(_))));
}

#[test]
fn pool_is_exhausted_until_the_compositor_releases() {
    let mut app = app_with_outputs(&[(2, 2)], false);
    app.recreate_surfaces().unwrap();
    configure_all(&mut app, &[10]);
    install_pools(&mut app);
    for path in ["a.jpg", "b.jpg", "c.jpg"] {
        app.preload(path, 2, 2, pixels(2, 2)).unwrap();
    }
    assert!(app.set_wallpaper("a.jpg").1.is_ok());
    let (second, outcome) = app.set_wallpaper("b.jpg");
    assert!(outcome.is_ok());
    assert!(second.contains(&Request::Attach { surface: 10, buffer: 2, x: 0, y: 0 }));
    let (third, outcome) = app.set_wallpaper("c.jpg");
    assert!(third.is_empty());
    assert!(matches!(outcome, Err(WallpaperError::Memory(_))));
    assert!(app.handle_event(Event::BufferRelease { buffer: 1 }).is_empty());
    let (again, outcome) = app.set_wallpaper("c.jpg");
    assert!(outcome.is_ok());
    assert_eq!(
        again,
        vec![
            Request::Attach { surface: 10, buffer: 1, x: 0, y: 0 },
            Request::Commit { surface: 10 },
        ]
    );
}

#[test]
fn flushed_apply_ends_in_two_roundtrips() {
    let mut app = app_with_outputs(&[(2, 2)], false);
    app.recreate_surfaces().unwrap();
    configure_all(&mut app, &[10]);
    install_pools(&mut app);
    app.preload("a.jpg", 2, 2, pixels(2, 2)).unwrap();
    let (requests, outcome) = app.set_wallpaper_and_exit("a.jpg");
    assert!(outcome.is_ok());
    let n = requests.len();
    assert_eq!(&requests[n - 2..], &[Request::Roundtrip, Request::Roundtrip]);
    assert_eq!(requests[n - 3], Request::Commit { surface: 10 });
    let (failed, outcome) = app.set_wallpaper_and_exit("b.jpg");
    assert!(outcome.is_err());
    assert!(failed.is_empty());
}

#[test]
fn event_loop_start_shows_the_current_image_again() {
    let mut app = app_with_outputs(&[(2, 2)], false);
    app.recreate_surfaces().unwrap();
    configure_all(&mut app, &[10]);
    install_pools(&mut app);
    let (nothing, outcome) = app.run_event_loop();
    assert!(nothing.is_empty());
    assert!(outcome.is_ok());
    app.preload("a.jpg", 2, 2, pixels(2, 2)).unwrap();
    app.set_wallpaper("a.jpg");
    let (requests, outcome) = app.run_event_loop();
    assert!(outcome.is_ok());
    assert_eq!(
        requests,
        vec![
            Request::Attach { surface: 10, buffer: 1, x: 0, y: 0 },
            Request::Commit { surface: 10 },
        ]
    );
}

#[test]
fn render_output_fills_the_pool_with_the_scaled_image() {
    let mut app = app_with_outputs(&[(1, 1)], false);
    app.recreate_surfaces().unwrap();
    install_pools(&mut app);
    app.preload("a.jpg", 2, 2, vec![1, 2, 3, 4, 5, 6, 7, 8, 9, 10, 11, 12, 13, 14, 15, 16])
        .unwrap();
    let (buffer, requests) = app.render_output("a.jpg", 0).unwrap();
    assert_eq!(buffer.buffer, 1);
    assert_eq!(requests.len(), 2);
    assert_eq!(app.resample_count(), 1);
    assert_eq!(app.cache_len(), 0);
}

#[test]
fn init_again_takes_the_pools_down() {
    let mut app = app_with_outputs(&[(2, 2)], false);
    app.recreate_surfaces().unwrap();
    configure_all(&mut app, &[10]);
    install_pools(&mut app);
    app.preload("a.jpg", 2, 2, pixels(2, 2)).unwrap();
    app.set_wallpaper("a.jpg");
    let requests = app.init_wayland();
    assert_eq!(
        requests,
        vec![
            Request::DestroyBuffer { buffer: 1 },
            Request::DestroyPool { pool: 0 },
            Request::GetRegistry,
            Request::Roundtrip,
            Request::Roundtrip,
        ]
    );
    assert_eq!(app.pool_count(), 0);
    assert!(app.monitors().is_empty());
}

#[test]
fn refused_command_wants_no_decoding() {
    let mut app = app_with_outputs(&[(4, 2), (2, 2)], false);
    app.recreate_surfaces().unwrap();
    install_pools(&mut app);
    assert!(app.wants_source("a.jpg", None, "fill"));
    assert!(app.wants_source("a.jpg", Some("11"), "fit"));
    assert!(!app.wants_source("a.jpg", Some("99"), "fill"));
    assert!(!app.wants_source("a.jpg", None, "zoom"));
    assert!(app.needs_source_for("a.jpg", Some(10)));
    assert!(!app.needs_source_for("a.jpg", Some(99)));
    app.preload("a.jpg", 4, 2, pixels(4, 2)).unwrap();
    assert!(!app.wants_source("a.jpg", None, "fill"));
    assert!(!app.needs_source_for("a.jpg", Some(10)));
    assert!(app.wants_source("b.jpg", None, "fill"));
}

#[test]
fn cached_output_wants_no_decoding_of_another_session() {
    let mut app = app_with_outputs(&[(2, 2)], false);
    app.recreate_surfaces().unwrap();
    configure_all(&mut app, &[10]);
    install_pools(&mut app);
    app.preload("a.jpg", 2, 2, pixels(2, 2)).unwrap();
    assert!(app.set_wallpaper("a.jpg").1.is_ok());
    assert!(!app.needs_source("a.jpg"));
    assert!(!app.wants_source("a.jpg", Some("10"), "stretch"));
}

#[test]
fn attached_and_cached_buffers_have_the_size_of_their_output() {
    let mut app = app_with_outputs(&[(4, 2), (2, 6)], false);
    app.recreate_surfaces().unwrap();
    configure_all(&mut app, &[10, 11]);
    install_pools(&mut app);
    app.preload("a.jpg", 8, 8, pixels(8, 8)).unwrap();
    assert!(app.set_wallpaper("a.jpg").1.is_ok());
    let first = app.state().get_layer_surface(10).unwrap().current_buffer().unwrap();
    let second = app.state().get_layer_surface(11).unwrap().current_buffer().unwrap();
    assert_eq!(first.size(), (4, 2));
    assert_eq!(second.size(), (2, 6));
    assert!(app.set_wallpaper("a.jpg").1.is_ok());
    let again = app.state().get_layer_surface(11).unwrap().current_buffer().unwrap();
    assert_eq!(again.size(), (2, 6));
    assert_eq!(again.buffer, second.buffer);
}
