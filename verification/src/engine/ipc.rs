use vstd::prelude::*;

verus! {

/// Path of the control socket.
pub const SOCKET_PATH: &'static str = "/tmp/wallpaper.sock";

/// Time, in milliseconds, that a starting daemon gives a running one to
/// leave the control socket.
pub const GRACE_MILLIS: u64 = 100;

/// A command for the daemon. One message travels over one connection.
#[derive(Debug)]
pub enum IpcMessage {
    SetWallpaper {
        /// Path of the image.
        image: String,
        /// Output to show it on; all outputs if absent.
        monitor: Option<String>,
        /// Name of the scaling mode.
        scaling: String,
    },
    StopDaemon,
}

/// Where a daemon stands while it takes the control socket.
#[derive(Debug, Clone, Copy, PartialEq, Eq, Structural)]
pub enum StartupState {
    /// Nothing was tried yet.
    Start,
    /// The first bind is under way.
    Binding,
    /// The socket was taken: whoever owns it is being told to stop.
    Notifying,
    /// A running daemon was told to stop and is given time to leave.
    Waiting,
    /// The socket file that was left behind is being removed.
    Removing,
    /// The second and last bind is under way.
    Rebinding,
    /// The socket is bound: the daemon serves.
    Serving,
    /// The socket could not be taken: the daemon gives up.
    Failed,
}

/// What the caller has to do next while the daemon takes the socket.
#[derive(Debug, Clone, Copy, PartialEq, Eq, Structural)]
pub enum StartupAction {
    /// Bind the control socket.
    Bind,
    /// Connect to the control socket and, if somebody answers, send
    /// `StopDaemon`.
    SendStop,
    /// Sleep for so many milliseconds.
    Sleep { millis: u64 },
    /// Remove the socket file, whether it is there or not.
    RemoveSocket,
    /// Start to accept connections.
    Serve,
    /// Give up with the error of the last step.
    Fail,
}

/// How the last action ended.
#[derive(Debug, Clone, Copy, PartialEq, Eq, Structural)]
pub enum StartupEvent {
    /// The action was done: the socket was bound, `StopDaemon` was sent,
    /// the time has passed. The removal of the socket file counts as done
    /// whether there was a file or not.
    Done,
    /// Nobody answered the connect: no daemon runs, and the socket was
    /// taken only by a file that was left behind. Nothing was sent.
    NoAnswer,
    /// The action failed: a bind did not get the socket, or `StopDaemon`
    /// could not be written to a daemon that had answered.
    Failed,
}

impl StartupState {
    /// The state after the last action ended with `event`.
    ///
    /// A first bind that succeeds leads straight to `Serving`. One that
    /// fails leads to `Notifying`. If a daemon answered and was told to
    /// stop, `Waiting` gives it the grace period before `Removing`; if
    /// nobody answered there is nobody to wait for, and `Removing` follows
    /// at once; if a daemon answered and could not be told, the start has
    /// failed. After `Removing` comes the second bind, whose failure is
    /// final.
    pub open spec fn after(self, event: StartupEvent) -> StartupState {
        match self {
            StartupState::Start => StartupState::Binding,
            StartupState::Binding => if event == StartupEvent::Done {
                StartupState::Serving
            } else {
                StartupState::Notifying
            },
            StartupState::Notifying => match event {
                StartupEvent::Done => StartupState::Waiting,
                StartupEvent::NoAnswer => StartupState::Removing,
                StartupEvent::Failed => StartupState::Failed,
            },
            StartupState::Waiting => StartupState::Removing,
            StartupState::Removing => StartupState::Rebinding,
            StartupState::Rebinding => if event == StartupEvent::Done {
                StartupState::Serving
            } else {
                StartupState::Failed
            },
            StartupState::Serving => StartupState::Serving,
            StartupState::Failed => StartupState::Failed,
        }
    }

    /// The action that a state asks for.
    pub open spec fn action(self) -> StartupAction {
        match self {
            StartupState::Start => StartupAction::Bind,
            StartupState::Binding => StartupAction::Bind,
            StartupState::Notifying => StartupAction::SendStop,
            StartupState::Waiting => StartupAction::Sleep { millis: GRACE_MILLIS },
            StartupState::Removing => StartupAction::RemoveSocket,
            StartupState::Rebinding => StartupAction::Bind,
            StartupState::Serving => StartupAction::Serve,
            StartupState::Failed => StartupAction::Fail,
        }
    }
}

/// No daemon, no delay: the grace period is spent only on a daemon that
/// was told to stop. A sleep is asked for after `StopDaemon` was sent from
/// `Notifying`, and in no other case; where nobody answered, the removal of
/// the socket file is asked for at once.
pub proof fn lemma_sleep_only_after_stop_was_sent(state: StartupState, event: StartupEvent)
    ensures
        state.after(event).action() is Sleep <==> state == StartupState::Notifying && event
            == StartupEvent::Done,
        StartupState::Notifying.after(StartupEvent::NoAnswer).action()
            == StartupAction::RemoveSocket,
{
}

/// The decisions of a daemon that takes the control socket. Only one
/// daemon may own the socket: one that finds it taken tells the owner to
/// stop, waits, and binds again.
#[derive(Debug)]
pub struct IpcServer {
    state: StartupState,
}

impl View for IpcServer {
    type V = StartupState;

    closed spec fn view(&self) -> StartupState {
        self.state
    }
}

impl IpcServer {
    /// A server that has not tried anything yet.
    pub fn new() -> (server: IpcServer)
        ensures
            server@ == StartupState::Start,
    {
        IpcServer { state: StartupState::Start }
    }

    /// Takes note of how the last action ended and returns the next one.
    /// The first call, for which no action has ended yet, returns the
    /// first bind whatever `event` is.
    pub fn step(&mut self, event: StartupEvent) -> (action: StartupAction)
        ensures
            final(self)@ == old(self)@.after(event),
            action == final(self)@.action(),
    {
        let done = event == StartupEvent::Done;
        let next = match self.state {
            StartupState::Start => StartupState::Binding,
            StartupState::Binding => if done {
                StartupState::Serving
            } else {
                StartupState::Notifying
            },
            StartupState::Notifying => match event {
                StartupEvent::Done => StartupState::Waiting,
                StartupEvent::NoAnswer => StartupState::Removing,
                StartupEvent::Failed => StartupState::Failed,
            },
            StartupState::Waiting => StartupState::Removing,
            StartupState::Removing => StartupState::Rebinding,
            StartupState::Rebinding => if done {
                StartupState::Serving
            } else {
                StartupState::Failed
            },
            StartupState::Serving => StartupState::Serving,
            StartupState::Failed => StartupState::Failed,
        };
        self.state = next;
        match next {
            StartupState::Start => StartupAction::Bind,
            StartupState::Binding => StartupAction::Bind,
            StartupState::Notifying => StartupAction::SendStop,
            StartupState::Waiting => StartupAction::Sleep { millis: GRACE_MILLIS },
            StartupState::Removing => StartupAction::RemoveSocket,
            StartupState::Rebinding => StartupAction::Bind,
            StartupState::Serving => StartupAction::Serve,
            StartupState::Failed => StartupAction::Fail,
        }
    }

    pub fn state(&self) -> (state: StartupState)
        ensures
            state == self@,
    {
        self.state
    }

    /// Whether the socket is bound and connections can be accepted.
    pub fn is_serving(&self) -> (r: bool)
        ensures
            r == (self@ == StartupState::Serving),
    {
        self.state == StartupState::Serving
    }
}

} // verus!
