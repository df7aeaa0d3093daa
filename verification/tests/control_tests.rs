use wallpaper::engine::daemon::Daemon;
use wallpaper::engine::ipc::{
    IpcMessage, IpcServer, StartupAction, StartupEvent, StartupState, GRACE_MILLIS, SOCKET_PATH,
};
use wallpaper::engine::protocol::LAYER_NAMESPACE;
use wallpaper::utils::cli::{Cli, CliAction, Command};
use wallpaper::utils::text::{decimal, is_decimal_of, same_text};
use wallpaper::WallpaperError;

#[test]
fn start_without_daemon_binds_at_once() {
    let mut server = IpcServer::new();
    assert_eq!(server.state(), StartupState::Start);
    assert_eq!(server.step(StartupEvent::Done), StartupAction::Bind);
    assert_eq!(server.step(StartupEvent::Done), StartupAction::Serve);
    assert!(server.is_serving());
    assert_eq!(server.step(StartupEvent::Done), StartupAction::Serve);
}

#[test]
fn start_beside_a_daemon_stops_it_waits_and_binds() {
    let mut server = IpcServer::new();
    assert_eq!(server.step(StartupEvent::Failed), StartupAction::Bind);
    assert_eq!(server.step(StartupEvent::Failed), StartupAction::SendStop);
    assert_eq!(server.step(StartupEvent::Done), StartupAction::Sleep { millis: 100 });
    assert_eq!(server.step(StartupEvent::Done), StartupAction::RemoveSocket);
    assert_eq!(server.step(StartupEvent::Failed), StartupAction::Bind);
    assert!(!server.is_serving());
    assert_eq!(server.step(StartupEvent::Done), StartupAction::Serve);
    assert!(server.is_serving());
    assert_eq!(GRACE_MILLIS, 100);
    assert_eq!(SOCKET_PATH, "/tmp/wallpaper.sock");
    assert_eq!(LAYER_NAMESPACE, "wallpaper");
}

#[test]
fn stale_socket_without_daemon_costs_no_delay() {
    let mut server = IpcServer::new();
    let mut actions = vec![server.step(StartupEvent::Done)];
    actions.push(server.step(StartupEvent::Failed));
    actions.push(server.step(StartupEvent::NoAnswer));
    actions.push(server.step(StartupEvent::Done));
    actions.push(server.step(StartupEvent::Done));
    assert_eq!(
        actions,
        vec![
            StartupAction::Bind,
            StartupAction::SendStop,
            StartupAction::RemoveSocket,
            StartupAction::Bind,
            StartupAction::Serve,
        ]
    );
    assert!(!actions.iter().any(|a| matches!(a, StartupAction::Sleep { .. })));
    assert!(server.is_serving());
}

#[test]
fn stale_socket_that_cannot_be_taken_fails_without_delay() {
    let mut server = IpcServer::new();
    server.step(StartupEvent::Done);
    server.step(StartupEvent::Failed);
    assert_eq!(server.step(StartupEvent::NoAnswer), StartupAction::RemoveSocket);
    assert_eq!(server.step(StartupEvent::Done), StartupAction::Bind);
    assert_eq!(server.step(StartupEvent::NoAnswer), StartupAction::Fail);
}

#[test]
fn second_bind_that_fails_is_final() {
    let mut server = IpcServer::new();
    server.step(StartupEvent::Done);
    server.step(StartupEvent::Failed);
    server.step(StartupEvent::Done);
    server.step(StartupEvent::Done);
    assert_eq!(server.step(StartupEvent::Done), StartupAction::Bind);
    assert_eq!(server.step(StartupEvent::Failed), StartupAction::Fail);
    assert_eq!(server.state(), StartupState::Failed);
    assert_eq!(server.step(StartupEvent::Done), StartupAction::Fail);
}

#[test]
fn stop_that_cannot_be_written_is_final() {
    let mut server = IpcServer::new();
    server.step(StartupEvent::Done);
    assert_eq!(server.step(StartupEvent::Failed), StartupAction::SendStop);
    assert_eq!(server.step(StartupEvent::Failed), StartupAction::Fail);
}

#[test]
fn stop_message_ends_the_running_daemon() {
    let mut daemon = Daemon::new();
    assert!(daemon.is_running());
    let (requests, outcome) = daemon.handle_message(IpcMessage::StopDaemon);
    assert!(requests.is_empty());
    assert!(outcome.is_ok());
    assert!(!daemon.is_running());
}

#[test]
fn daemon_refuses_a_bad_scaling_and_goes_on() {
    let mut daemon = Daemon::new();
    let (requests, outcome) = daemon.handle_message(IpcMessage::SetWallpaper {
        image: "a.jpg".to_string(),
        monitor: None,
        scaling: "zoom".to_string(),
    });
    assert!(requests.is_empty());
    match outcome {
        Err(WallpaperError::InvalidScaling(text)) => assert_eq!(text, "zoom"),
        _ => panic!("zoom is no scaling mode"),
    }
    assert!(daemon.is_running());
}

#[test]
fn daemon_with_no_outputs_applies_to_none_and_flushes() {
    let mut daemon = Daemon::new();
    let (requests, outcome) = daemon.handle_message(IpcMessage::SetWallpaper {
        image: "a.jpg".to_string(),
        monitor: None,
        scaling: "fill".to_string(),
    });
    assert!(outcome.is_ok());
    assert_eq!(
        requests,
        vec![
            wallpaper::engine::protocol::Request::Roundtrip,
            wallpaper::engine::protocol::Request::Roundtrip
        ]
    );
    assert_eq!(daemon.app.current_wallpaper(), Some("a.jpg"));
}

#[test]
fn set_command_becomes_a_set_wallpaper_message() {
    let cli = Cli {
        command: Command::SetWallpaper {
            image: "pic.jpg".to_string(),
            monitor: Some("3".to_string()),
            scaling: "fit".to_string(),
        },
    };
    match cli.action() {
        CliAction::Send(IpcMessage::SetWallpaper { image, monitor, scaling }) => {
            assert_eq!(image, "pic.jpg");
            assert_eq!(monitor, Some("3".to_string()));
            assert_eq!(scaling, "fit");
        }
        _ => panic!("set sends a message"),
    }
}

#[test]
fn daemon_command_starts_or_stops() {
    assert!(matches!(
        Cli { command: Command::Daemon { start: true } }.action(),
        CliAction::RunDaemon
    ));
    assert!(matches!(
        Cli { command: Command::Daemon { start: false } }.action(),
        CliAction::Send(IpcMessage::StopDaemon)
    ));
}

#[test]
fn error_messages_name_their_kind() {
    assert_eq!(WallpaperError::IoError("gone".to_string()).message(), "IO error: gone");
    assert_eq!(WallpaperError::Wayland("x".to_string()).message(), "Wayland error: x");
    assert_eq!(
        WallpaperError::WaylandConnect("x".to_string()).message(),
        "Wayland connect error: x"
    );
    assert_eq!(WallpaperError::Image("x".to_string()).message(), "Image error: x");
    assert_eq!(WallpaperError::Memory("x".to_string()).message(), "Memory error: x");
    assert_eq!(
        WallpaperError::Serialization("x".to_string()).message(),
        "Serialization error: x"
    );
    assert_eq!(WallpaperError::InvalidMonitor("7".to_string()).message(), "Invalid monitor: 7");
    assert_eq!(
        WallpaperError::InvalidScaling("zoom".to_string()).message(),
        "Invalid scaling mode: zoom"
    );
    assert_eq!(
        WallpaperError::WaylandProtocol("x".to_string()).message(),
        "Wayland protocol error: x"
    );
}

#[test]
fn memfd_failure_becomes_a_memory_error() {
    let failure = memfd::Error::Create(std::io::Error::new(std::io::ErrorKind::Other, "no"));
    match WallpaperError::from(failure) {
        WallpaperError::Memory(text) => assert_eq!(text, "cannot create a memfd"),
        _ => panic!("a memfd failure is a memory error"),
    }
    let seals = memfd::Error::AddSeals(std::io::Error::new(std::io::ErrorKind::Other, "no"));
    match WallpaperError::from(seals) {
        WallpaperError::Memory(text) => assert_eq!(text, "cannot add seals to the memfd"),
        _ => panic!("a memfd failure is a memory error"),
    }
}

#[test]
fn decimal_writes_without_leading_zeros() {
    assert_eq!(decimal(0), b"0".to_vec());
    assert_eq!(decimal(7), b"7".to_vec());
    assert_eq!(decimal(10), b"10".to_vec());
    assert_eq!(decimal(4294967295), b"4294967295".to_vec());
    assert!(is_decimal_of("42", 42));
    assert!(!is_decimal_of("042", 42));
    assert!(!is_decimal_of("42 ", 42));
    assert!(!is_decimal_of("", 0));
    assert!(!is_decimal_of("43", 42));
    assert!(same_text("fill", "fill"));
    assert!(!same_text("fill", "fil"));
}

#[test]
fn only_connection_and_protocol_errors_end_the_session() {
    assert!(WallpaperError::Wayland("x".to_string()).is_fatal());
    assert!(WallpaperError::WaylandConnect("x".to_string()).is_fatal());
    assert!(WallpaperError::WaylandProtocol("x".to_string()).is_fatal());
    assert!(!WallpaperError::IoError("x".to_string()).is_fatal());
    assert!(!WallpaperError::Image("x".to_string()).is_fatal());
    assert!(!WallpaperError::Memory("x".to_string()).is_fatal());
    assert!(!WallpaperError::Serialization("x".to_string()).is_fatal());
    assert!(!WallpaperError::InvalidMonitor("x".to_string()).is_fatal());
    assert!(!WallpaperError::InvalidScaling("x".to_string()).is_fatal());
}

#[test]
fn failed_apply_leaves_the_daemon_running() {
    let mut daemon = Daemon::new();
    daemon.app.init_wayland();
    daemon.app.handle_event(wallpaper::engine::protocol::Event::Global {
        name: 1,
        interface: "wl_compositor".to_string(),
        version: 1,
    });
    daemon.app.handle_event(wallpaper::engine::protocol::Event::Global {
        name: 2,
        interface: "zwlr_layer_shell_v1".to_string(),
        version: 1,
    });
    daemon.app.handle_event(wallpaper::engine::protocol::Event::Global {
        name: 10,
        interface: "wl_output".to_string(),
        version: 1,
    });
    daemon.app.handle_event(wallpaper::engine::protocol::Event::OutputMode {
        output: 10,
        width: 2,
        height: 2,
        refresh: 60000,
    });
    daemon.app.recreate_surfaces().unwrap();
    let (requests, outcome) = daemon.receive(Some(IpcMessage::SetWallpaper {
        image: "missing.jpg".to_string(),
        monitor: None,
        scaling: "fill".to_string(),
    }));
    assert!(requests.is_empty());
    match outcome {
        Err(e) => assert!(!e.is_fatal()),
        Ok(()) => panic!("the image was not loaded"),
    }
    assert!(daemon.is_running());
    let (nothing, dropped) = daemon.receive(None);
    assert!(nothing.is_empty());
    assert!(dropped.is_ok());
    assert!(daemon.is_running());
}
