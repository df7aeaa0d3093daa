use crate::engine::app::{applies, before_flush, flush, App};
use crate::engine::ipc::{IpcMessage, IpcServer, StartupState};
use crate::engine::protocol::Request;
use crate::utils::error::WallpaperResult;
use vstd::prelude::*;

verus! {

/// The long-running side of the control channel: it owns the orchestrator
/// for the life of the process and carries out one message after the
/// other, each before the next is accepted.
pub struct Daemon {
    /// Whether the daemon goes on accepting messages.
    pub running: bool,
    /// The decisions about the control socket.
    pub server: IpcServer,
    pub app: App,
}

impl Daemon {
    /// A daemon that runs, with an orchestrator that knows nothing yet and
    /// a server that has not taken the control socket.
    pub fn new() -> (daemon: Daemon)
        ensures
            daemon.running,
            daemon.app.wf(),
            daemon.app@ == App::new_view(),
            daemon.server@ == StartupState::Start,
    {
        Daemon { running: true, server: IpcServer::new(), app: App::new() }
    }

    /// Whether the daemon goes on accepting messages.
    pub fn is_running(&self) -> (r: bool)
        ensures
            r == self.running,
    {
        self.running
    }

    /// Carries out one message, as `carried_out` says, and returns the
    /// requests to send and the outcome.
    pub fn handle_message(&mut self, message: IpcMessage) -> (r: (
        Vec<Request>,
        WallpaperResult<()>,
    ))
        requires
            old(self).app.wf(),
        ensures
            final(self).app.wf(),
            carried_out(*old(self), *final(self), message, r.0@, r.1),
    {
        match message {
            IpcMessage::StopDaemon => {
                self.running = false;
                (Vec::new(), Ok(()))
            },
            IpcMessage::SetWallpaper { image, monitor, scaling } => {
                let selector: Option<&str> = match &monitor {
                    Some(selector) => Some(selector.as_str()),
                    None => None,
                };
                let (mut requests, outcome) = self.app.apply(
                    image.as_str(),
                    selector,
                    scaling.as_str(),
                );
                let ghost sent = requests@;
                let done = match &outcome {
                    Ok(_) => true,
                    Err(_) => false,
                };
                if done {
                    requests.push(Request::Roundtrip);
                    requests.push(Request::Roundtrip);
                }
                proof {
                    assert(before_flush(requests@, outcome) =~= sent);
                    assert(requests@ =~= sent + flush(outcome));
                }
                (requests, outcome)
            },
        }
    }

    /// Carries out what one connection delivered: a message, or nothing
    /// where the payload could not be read as a message. Such a payload is
    /// dropped: nothing changes, nothing is sent, and the daemon goes on.
    pub fn receive(&mut self, delivery: Option<IpcMessage>) -> (r: (
        Vec<Request>,
        WallpaperResult<()>,
    ))
        requires
            old(self).app.wf(),
        ensures
            final(self).app.wf(),
            match delivery {
                Some(message) => carried_out(*old(self), *final(self), message, r.0@, r.1),
                None => {
                    &&& final(self).running == old(self).running
                    &&& final(self).server == old(self).server
                    &&& final(self).app@ == old(self).app@
                    &&& r.0@.len() == 0
                    &&& r.1 is Ok
                },
            },
    {
        match delivery {
            Some(message) => self.handle_message(message),
            None => (Vec::new(), Ok(())),
        }
    }
}

/// What carrying out `message` does to a daemon.
///
/// `StopDaemon` ends the daemon: it does not run any more, and nothing else
/// changes. `SetWallpaper` is `App::apply` with the image, the monitor and
/// the scaling of the message, flushed by two roundtrips if it succeeded;
/// the daemon goes on running or not as before.
pub open spec fn carried_out(
    before: Daemon,
    after: Daemon,
    message: IpcMessage,
    requests: Seq<Request>,
    outcome: WallpaperResult<()>,
) -> bool {
    &&& after.server == before.server
    &&& match message {
        IpcMessage::StopDaemon => {
            &&& !after.running
            &&& after.app@ == before.app@
            &&& requests.len() == 0
            &&& outcome is Ok
        },
        IpcMessage::SetWallpaper { image, monitor, scaling } => {
            &&& after.running == before.running
            &&& requests == before_flush(requests, outcome) + flush(outcome)
            &&& applies(
                before.app@,
                after.app@,
                image@,
                match monitor {
                    Some(selector) => Some(selector@),
                    None => None,
                },
                scaling@,
                before_flush(requests, outcome),
                outcome,
            )
        },
    }
}

} // verus!
