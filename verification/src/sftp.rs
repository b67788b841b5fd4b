use vstd::prelude::*;

verus! {

/// The SFTP service: whether it holds an open session.
///
/// The network work (opening the TCP connection, the SSH handshake, authenticating, opening the
/// SFTP channel, creating and writing remote files, disconnecting) is done by the caller; the
/// service decides, from the outcome of each step, what comes next.
pub struct SftpService {
    pub connected: bool,
}

/// Why an SFTP operation failed.
#[derive(PartialEq, Eq, Structural)]
pub enum SftpError {
    /// The TCP connection to the server could not be opened.
    ConnectServer,
    /// No SSH session could be created.
    CreateSession,
    /// The SSH handshake failed.
    Handshake,
    /// The server refused the credentials.
    Authenticate,
    /// No SFTP channel could be opened.
    CreateSftp,
    /// Connecting failed (as reported by a live check).
    ConnectFailed,
    /// The session could not be closed.
    Disconnect,
    /// The local file could not be read.
    ReadLocal,
    /// The remote file could not be written.
    WriteRemote,
}

/// The text reported for an error.
pub open spec fn sftp_error_text(e: SftpError) -> Seq<char> {
    match e {
        SftpError::ConnectServer => "Couldn't connect to server..."@,
        SftpError::CreateSession => "Couldn't create session"@,
        SftpError::Handshake => "Couldn't handshake"@,
        SftpError::Authenticate => "Couldn't authenticate"@,
        SftpError::CreateSftp => "Couldn't create sftp"@,
        SftpError::ConnectFailed => "Couldn't connect to server"@,
        SftpError::Disconnect => "Couldn't disconnect"@,
        SftpError::ReadLocal => "Could not read file!"@,
        SftpError::WriteRemote => "Couldn't write file"@,
    }
}

impl SftpError {
    /// The text reported for the error.
    pub fn message(&self) -> (m: &'static str)
        ensures
            m@ == sftp_error_text(*self),
    {
        match self {
            SftpError::ConnectServer => "Couldn't connect to server...",
            SftpError::CreateSession => "Couldn't create session",
            SftpError::Handshake => "Couldn't handshake",
            SftpError::Authenticate => "Couldn't authenticate",
            SftpError::CreateSftp => "Couldn't create sftp",
            SftpError::ConnectFailed => "Couldn't connect to server",
            SftpError::Disconnect => "Couldn't disconnect",
            SftpError::ReadLocal => "Could not read file!",
            SftpError::WriteRemote => "Couldn't write file",
        }
    }
}

/// The steps of opening a session, in order.
#[derive(PartialEq, Eq, Structural)]
pub enum ConnectStep {
    OpenTcp,
    CreateSession,
    Handshake,
    Authenticate,
    OpenSftp,
}

/// What to do next while opening a session.
#[derive(PartialEq, Eq, Structural)]
pub enum ConnectAction {
    /// Carry out this step and report whether it succeeded.
    Perform(ConnectStep),
    /// The session is open.
    Established,
    /// Opening the session failed.
    Failed(SftpError),
}

/// Events of a live check: its start, then the outcome of each action it asked for.
pub enum LiveCheckEvent {
    Start,
    ConnectFinished(bool),
    DisconnectFinished(bool),
}

/// What to do next in a live check.
pub enum LiveCheckAction {
    /// Open a session (see `connect_step`) and report whether it was established.
    Connect,
    /// Close the session and report whether that succeeded.
    Disconnect,
    /// The live check is over, with this outcome.
    Finish(Result<(), SftpError>),
}

/// Events of a file upload: its start, then the outcome of each action it asked for.
pub enum SendFileEvent {
    Start,
    ConnectFinished(bool),
    RemoteCreated(bool),
    LocalRead(bool),
    Written(bool),
    DisconnectFinished(bool),
}

/// What to do next in a file upload.
pub enum SendFileAction {
    /// Open a session (see `connect_step`) and report whether it was established.
    Connect,
    /// Create the remote file.
    CreateRemote,
    /// Read the local file.
    ReadLocal,
    /// Write the local file's contents to the remote file.
    Write,
    /// Close the session and report whether that succeeded.
    Disconnect,
    /// The upload is over, with this outcome.
    Finish(Result<(), SftpError>),
}

/// The step that follows `step` when it succeeds.
pub open spec fn next_step(step: ConnectStep) -> Option<ConnectStep> {
    match step {
        ConnectStep::OpenTcp => Some(ConnectStep::CreateSession),
        ConnectStep::CreateSession => Some(ConnectStep::Handshake),
        ConnectStep::Handshake => Some(ConnectStep::Authenticate),
        ConnectStep::Authenticate => Some(ConnectStep::OpenSftp),
        ConnectStep::OpenSftp => None,
    }
}

/// The error reported when `step` fails.
pub open spec fn step_error(step: ConnectStep) -> SftpError {
    match step {
        ConnectStep::OpenTcp => SftpError::ConnectServer,
        ConnectStep::CreateSession => SftpError::CreateSession,
        ConnectStep::Handshake => SftpError::Handshake,
        ConnectStep::Authenticate => SftpError::Authenticate,
        ConnectStep::OpenSftp => SftpError::CreateSftp,
    }
}

/// What follows the outcome of a step of opening a session.
pub open spec fn connect_next(step: ConnectStep, succeeded: bool) -> ConnectAction {
    if !succeeded {
        ConnectAction::Failed(step_error(step))
    } else {
        match next_step(step) {
            Some(next) => ConnectAction::Perform(next),
            None => ConnectAction::Established,
        }
    }
}

/// The service's state and the next action after an event of a live check.
pub open spec fn live_check_next(connected: bool, event: LiveCheckEvent) -> (bool, LiveCheckAction) {
    match event {
        LiveCheckEvent::Start => if connected {
            (connected, LiveCheckAction::Finish(Ok(())))
        } else {
            (connected, LiveCheckAction::Connect)
        },
        LiveCheckEvent::ConnectFinished(ok) => if ok {
            (connected, LiveCheckAction::Disconnect)
        } else {
            (connected, LiveCheckAction::Finish(Err(SftpError::ConnectFailed)))
        },
        LiveCheckEvent::DisconnectFinished(ok) => if ok {
            (false, LiveCheckAction::Finish(Ok(())))
        } else {
            (connected, LiveCheckAction::Finish(Err(SftpError::Disconnect)))
        },
    }
}

/// The service's state and the next action after an event of a file upload.
pub open spec fn send_file_next(connected: bool, event: SendFileEvent) -> (bool, SendFileAction) {
    match event {
        SendFileEvent::Start => (connected, SendFileAction::Connect),
        SendFileEvent::ConnectFinished(ok) => if ok {
            (connected, SendFileAction::CreateRemote)
        } else {
            (connected, SendFileAction::Finish(Ok(())))
        },
        SendFileEvent::RemoteCreated(ok) => if ok {
            (connected, SendFileAction::ReadLocal)
        } else {
            (connected, SendFileAction::Finish(Ok(())))
        },
        SendFileEvent::LocalRead(ok) => if ok {
            (connected, SendFileAction::Write)
        } else {
            (connected, SendFileAction::Finish(Err(SftpError::ReadLocal)))
        },
        SendFileEvent::Written(ok) => if ok {
            (connected, SendFileAction::Disconnect)
        } else {
            (connected, SendFileAction::Finish(Err(SftpError::WriteRemote)))
        },
        SendFileEvent::DisconnectFinished(ok) => (connected && !ok, SendFileAction::Finish(Ok(()))),
    }
}

impl SftpService {
    /// A service with no session.
    pub fn new() -> (s: SftpService)
        ensures
            !s.connected,
    {
        SftpService { connected: false }
    }

    /// Whether a session is held, without touching the network.
    pub fn dry_check(&self) -> (r: Option<()>)
        ensures
            r is Some <==> self.connected,
    {
        if self.connected {
            Some(())
        } else {
            None
        }
    }

    /// The first step of opening a session.
    pub fn connect_start() -> (a: ConnectAction)
        ensures
            a == ConnectAction::Perform(ConnectStep::OpenTcp),
    {
        ConnectAction::Perform(ConnectStep::OpenTcp)
    }

    /// Takes the outcome of a step of opening a session: a failed step ends it with that
    /// step's error, leaving any session held before in place; the last step's success makes
    /// the new session the one held.
    pub fn connect_step(&mut self, step: ConnectStep, succeeded: bool) -> (a: ConnectAction)
        ensures
            a == connect_next(step, succeeded),
            final(self).connected == (old(self).connected || a == ConnectAction::Established),
    {
        if !succeeded {
            let e = match step {
                ConnectStep::OpenTcp => SftpError::ConnectServer,
                ConnectStep::CreateSession => SftpError::CreateSession,
                ConnectStep::Handshake => SftpError::Handshake,
                ConnectStep::Authenticate => SftpError::Authenticate,
                ConnectStep::OpenSftp => SftpError::CreateSftp,
            };
            return ConnectAction::Failed(e);
        }
        match step {
            ConnectStep::OpenTcp => ConnectAction::Perform(ConnectStep::CreateSession),
            ConnectStep::CreateSession => ConnectAction::Perform(ConnectStep::Handshake),
            ConnectStep::Handshake => ConnectAction::Perform(ConnectStep::Authenticate),
            ConnectStep::Authenticate => ConnectAction::Perform(ConnectStep::OpenSftp),
            ConnectStep::OpenSftp => {
                self.connected = true;
                ConnectAction::Established
            },
        }
    }

    /// Whether closing the session takes any network work: only when a session is held.
    pub fn disconnect_needed(&self) -> (b: bool)
        ensures
            b == self.connected,
    {
        self.connected
    }

    /// Takes the outcome of closing the session: the session is dropped only when closing
    /// succeeded.
    pub fn disconnect_finished(&mut self, succeeded: bool) -> (r: Result<(), SftpError>)
        ensures
            final(self).connected == (old(self).connected && !succeeded),
            r is Ok <==> succeeded,
            r matches Err(e) ==> e == SftpError::Disconnect,
    {
        if succeeded {
            self.connected = false;
            Ok(())
        } else {
            Err(SftpError::Disconnect)
        }
    }

    /// Takes an event of a live check and says what to do next. A held session answers at
    /// once; otherwise a session is opened and closed again.
    pub fn live_check(&mut self, event: LiveCheckEvent) -> (a: LiveCheckAction)
        ensures
            (final(self).connected, a) == live_check_next(old(self).connected, event),
    {
        match event {
            LiveCheckEvent::Start => if self.connected {
                LiveCheckAction::Finish(Ok(()))
            } else {
                LiveCheckAction::Connect
            },
            LiveCheckEvent::ConnectFinished(ok) => if ok {
                LiveCheckAction::Disconnect
            } else {
                LiveCheckAction::Finish(Err(SftpError::ConnectFailed))
            },
            LiveCheckEvent::DisconnectFinished(ok) => match self.disconnect_finished(ok) {
                Ok(()) => LiveCheckAction::Finish(Ok(())),
                Err(e) => LiveCheckAction::Finish(Err(e)),
            },
        }
    }

    /// Takes an event of a file upload and says what to do next. An upload that cannot
    /// connect or create the remote file ends without error; reading the local file and writing
    /// the remote one are the failures it reports. The outcome of the final disconnect is not
    /// reported.
    pub fn send_file(&mut self, event: SendFileEvent) -> (a: SendFileAction)
        ensures
            (final(self).connected, a) == send_file_next(old(self).connected, event),
    {
        match event {
            SendFileEvent::Start => SendFileAction::Connect,
            SendFileEvent::ConnectFinished(ok) => if ok {
                SendFileAction::CreateRemote
            } else {
                SendFileAction::Finish(Ok(()))
            },
            SendFileEvent::RemoteCreated(ok) => if ok {
                SendFileAction::ReadLocal
            } else {
                SendFileAction::Finish(Ok(()))
            },
            SendFileEvent::LocalRead(ok) => if ok {
                SendFileAction::Write
            } else {
                SendFileAction::Finish(Err(SftpError::ReadLocal))
            },
            SendFileEvent::Written(ok) => if ok {
                SendFileAction::Disconnect
            } else {
                SendFileAction::Finish(Err(SftpError::WriteRemote))
            },
            SendFileEvent::DisconnectFinished(ok) => {
                let _ = self.disconnect_finished(ok);
                SendFileAction::Finish(Ok(()))
            },
        }
    }
}

/// Where opening a session stands after the outcomes `outcomes` of its steps, from `step` on.
pub open spec fn run_connect(step: ConnectStep, outcomes: Seq<bool>) -> ConnectAction
    decreases outcomes.len(),
{
    if outcomes.len() == 0 {
        ConnectAction::Perform(step)
    } else {
        match connect_next(step, outcomes[0]) {
            ConnectAction::Perform(next) => run_connect(next, outcomes.drop_first()),
            other => other,
        }
    }
}

/// A session is established exactly when the five steps, from opening the TCP connection to
/// opening the SFTP channel, all succeed; otherwise the first step that fails gives the error.
pub proof fn law_connect_needs_every_step(outcomes: Seq<bool>)
    requires
        outcomes.len() == 5,
    ensures
        run_connect(ConnectStep::OpenTcp, outcomes) == ConnectAction::Established <==> (forall|i: int|
            0 <= i < 5 ==> #[trigger] outcomes[i]),
        !outcomes[0] ==> run_connect(ConnectStep::OpenTcp, outcomes) == ConnectAction::Failed(
            SftpError::ConnectServer,
        ),
        outcomes[0] && !outcomes[1] ==> run_connect(ConnectStep::OpenTcp, outcomes)
            == ConnectAction::Failed(SftpError::CreateSession),
        outcomes[0] && outcomes[1] && !outcomes[2] ==> run_connect(ConnectStep::OpenTcp, outcomes)
            == ConnectAction::Failed(SftpError::Handshake),
        outcomes[0] && outcomes[1] && outcomes[2] && !outcomes[3] ==> run_connect(
            ConnectStep::OpenTcp,
            outcomes,
        ) == ConnectAction::Failed(SftpError::Authenticate),
        outcomes[0] && outcomes[1] && outcomes[2] && outcomes[3] && !outcomes[4] ==> run_connect(
            ConnectStep::OpenTcp,
            outcomes,
        ) == ConnectAction::Failed(SftpError::CreateSftp),
{
    let o1 = outcomes.drop_first();
    let o2 = o1.drop_first();
    let o3 = o2.drop_first();
    let o4 = o3.drop_first();
    let o5 = o4.drop_first();
    assert(o1[0] == outcomes[1] && o2[0] == outcomes[2] && o3[0] == outcomes[3] && o4[0] == outcomes[4]);
    assert(o5.len() == 0);
    reveal_with_fuel(run_connect, 6);
    if forall|i: int| 0 <= i < 5 ==> #[trigger] outcomes[i] {
        assert(outcomes[0] && outcomes[1] && outcomes[2] && outcomes[3] && outcomes[4]);
    }
}

/// A live check on a service that holds a session does no network work, succeeds and keeps the
/// session.
pub proof fn law_live_check_held_session_answers_at_once()
    ensures
        live_check_next(true, LiveCheckEvent::Start) == (true, LiveCheckAction::Finish(Ok(()))),
{
}

/// A live check on a service without a session opens one and closes it again: when both
/// succeed, it reports success and leaves the service without a session, as it found it.
pub proof fn law_live_check_leaves_no_session(outcomes: Seq<bool>)
    requires
        outcomes.len() == 5,
        forall|i: int| 0 <= i < 5 ==> #[trigger] outcomes[i],
    ensures
        live_check_next(false, LiveCheckEvent::Start).1 == LiveCheckAction::Connect,
        run_connect(ConnectStep::OpenTcp, outcomes) == ConnectAction::Established,
        live_check_next(true, LiveCheckEvent::ConnectFinished(true)) == (true, LiveCheckAction::Disconnect),
        live_check_next(true, LiveCheckEvent::DisconnectFinished(true)) == (false, LiveCheckAction::Finish(
            Ok(()),
        )),
{
    law_connect_needs_every_step(outcomes);
}

/// A failed disconnect keeps the session: the service still holds it afterwards.
pub proof fn law_failed_disconnect_keeps_session(connected: bool)
    ensures
        live_check_next(connected, LiveCheckEvent::DisconnectFinished(false)).0 == connected,
        send_file_next(connected, SendFileEvent::DisconnectFinished(false)).0 == connected,
{
}

/// An upload reports an error only when the local file cannot be read or the remote file
/// cannot be written; failing to connect or to create the remote file ends it without error.
pub proof fn law_upload_errors(connected: bool, event: SendFileEvent)
    ensures
        send_file_next(connected, event).1 matches SendFileAction::Finish(Err(e)) ==> (e
            == SftpError::ReadLocal || e == SftpError::WriteRemote),
        send_file_next(connected, SendFileEvent::ConnectFinished(false)).1 == SendFileAction::Finish(
            Ok(()),
        ),
        send_file_next(connected, SendFileEvent::RemoteCreated(false)).1 == SendFileAction::Finish(
            Ok(()),
        ),
{
}

/// Where a whole live check ends, as `live_check` and `connect_step` drive it, from a service
/// that holds a session or not (`connected`): `connect` are the outcomes of the steps of opening
/// a session and `disconnect_ok` that of closing it again.
pub open spec fn live_check_run(connected: bool, connect: Seq<bool>, disconnect_ok: bool) -> (bool, LiveCheckAction) {
    let first = live_check_next(connected, LiveCheckEvent::Start);
    match first.1 {
        LiveCheckAction::Connect => {
            let established = run_connect(ConnectStep::OpenTcp, connect) == ConnectAction::Established;
            let after_connect = live_check_next(first.0 || established, LiveCheckEvent::ConnectFinished(established));
            match after_connect.1 {
                LiveCheckAction::Disconnect => live_check_next(
                    after_connect.0,
                    LiveCheckEvent::DisconnectFinished(disconnect_ok),
                ),
                _ => after_connect,
            }
        },
        _ => first,
    }
}

/// A live check that succeeds leaves the service as it found it: holding a session exactly
/// when it held one before, whatever the outcomes of its steps.
pub proof fn law_live_check_keeps_session_state(connected: bool, connect: Seq<bool>, disconnect_ok: bool)
    ensures
        live_check_run(connected, connect, disconnect_ok).1 == LiveCheckAction::Finish(Ok(()))
            ==> live_check_run(connected, connect, disconnect_ok).0 == connected,
{
}

/// An upload ends with success only after closing the session or when connecting or creating
/// the remote file failed: once the local file was read, it is written before anything else,
/// whether or not the service holds a session.
pub proof fn law_read_file_is_written(connected: bool, event: SendFileEvent)
    ensures
        send_file_next(connected, SendFileEvent::LocalRead(true)) == (connected, SendFileAction::Write),
        send_file_next(connected, event).1 == SendFileAction::Finish(Ok(())) ==> (event
            == SendFileEvent::ConnectFinished(false) || event == SendFileEvent::RemoteCreated(false)
            || event is DisconnectFinished),
{
}

/// An upload in which every step succeeds connects, creates the remote file, reads the local
/// file, writes it, closes the session and reports success, leaving no session behind.
pub proof fn law_successful_upload_steps(connected: bool)
    ensures
        send_file_next(connected, SendFileEvent::Start).1 == SendFileAction::Connect,
        send_file_next(true, SendFileEvent::ConnectFinished(true)) == (true, SendFileAction::CreateRemote),
        send_file_next(true, SendFileEvent::RemoteCreated(true)) == (true, SendFileAction::ReadLocal),
        send_file_next(true, SendFileEvent::LocalRead(true)) == (true, SendFileAction::Write),
        send_file_next(true, SendFileEvent::Written(true)) == (true, SendFileAction::Disconnect),
        send_file_next(true, SendFileEvent::DisconnectFinished(true)) == (false, SendFileAction::Finish(Ok(()))),
{
}

} // verus!
