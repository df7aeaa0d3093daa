use crate::engine::ipc::IpcMessage;
use vstd::prelude::*;

verus! {

/// The parsed command line.
#[derive(Debug)]
pub struct Cli {
    pub command: Command,
}

/// The subcommands.
#[derive(Debug)]
pub enum Command {
    /// `set`: show an image as wallpaper.
    SetWallpaper {
        /// Path of the image.
        image: String,
        /// Output to show it on; all outputs if absent.
        monitor: Option<String>,
        /// Name of the scaling mode.
        scaling: String,
    },
    /// `daemon`: start the daemon, or stop the one that runs.
    Daemon { start: bool },
}

/// What the program does for a command line.
#[derive(Debug)]
pub enum CliAction {
    /// Send the message to the running daemon.
    Send(IpcMessage),
    /// Become the daemon.
    RunDaemon,
}

impl Cli {
    /// What the program does for this command line: `set` sends a
    /// `SetWallpaper` with the same image, output and scaling; `daemon` with
    /// `start` runs the daemon, without it sends `StopDaemon`.
    pub fn action(self) -> (action: CliAction)
        ensures
            match self.command {
                Command::SetWallpaper { image, monitor, scaling } => action == CliAction::Send(
                    IpcMessage::SetWallpaper { image, monitor, scaling },
                ),
                Command::Daemon { start } => if start {
                    action is RunDaemon
                } else {
                    action == CliAction::Send(IpcMessage::StopDaemon)
                },
            },
    {
        match self.command {
            Command::SetWallpaper { image, monitor, scaling } => CliAction::Send(
                IpcMessage::SetWallpaper { image, monitor, scaling },
            ),
            Command::Daemon { start } => if start {
                CliAction::RunDaemon
            } else {
                CliAction::Send(IpcMessage::StopDaemon)
            },
        }
    }
}

} // verus!
