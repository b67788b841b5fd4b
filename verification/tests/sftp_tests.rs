use csv_tasks::sftp::{
    ConnectAction, ConnectStep, LiveCheckAction, LiveCheckEvent, SendFileAction, SendFileEvent, SftpError,
    SftpService,
};

fn connect(s: &mut SftpService, outcomes: &[bool]) -> ConnectAction {
    let mut a = SftpService::connect_start();
    for &ok in outcomes {
        match a {
            ConnectAction::Perform(step) => a = s.connect_step(step, ok),
            _ => break,
        }
    }
    a
}

#[test]
fn dry_check_reports_session() {
    let mut s = SftpService::new();
    assert!(s.dry_check().is_none());
    assert!(connect(&mut s, &[true; 5]) == ConnectAction::Established);
    assert!(s.dry_check().is_some());
}

#[test]
fn connect_fails_at_first_failed_step() {
    let mut s = SftpService::new();
    assert!(connect(&mut s, &[true, true, false, true, true]) == ConnectAction::Failed(SftpError::Handshake));
    assert!(!s.connected);
    assert!(connect(&mut s, &[false]) == ConnectAction::Failed(SftpError::ConnectServer));
    assert!(connect(&mut s, &[true, false]) == ConnectAction::Failed(SftpError::CreateSession));
    assert_eq!(SftpError::CreateSession.message(), "Couldn't create session");
    assert_eq!(SftpError::ConnectServer.message(), "Couldn't connect to server...");
    assert!(connect(&mut s, &[true, true, true, true, false]) == ConnectAction::Failed(SftpError::CreateSftp));
    assert!(s.connect_step(ConnectStep::Authenticate, false) == ConnectAction::Failed(SftpError::Authenticate));
    assert!(!s.connected);
}

#[test]
fn live_check_with_session_answers_at_once() {
    let mut s = SftpService { connected: true };
    assert!(matches!(s.live_check(LiveCheckEvent::Start), LiveCheckAction::Finish(Ok(()))));
    assert!(s.connected);
}

#[test]
fn live_check_opens_and_closes() {
    let mut s = SftpService::new();
    assert!(matches!(s.live_check(LiveCheckEvent::Start), LiveCheckAction::Connect));
    assert!(connect(&mut s, &[true; 5]) == ConnectAction::Established);
    assert!(matches!(s.live_check(LiveCheckEvent::ConnectFinished(true)), LiveCheckAction::Disconnect));
    assert!(matches!(s.live_check(LiveCheckEvent::DisconnectFinished(true)), LiveCheckAction::Finish(Ok(()))));
    assert!(!s.connected);
}

#[test]
fn live_check_failures() {
    let mut s = SftpService::new();
    match s.live_check(LiveCheckEvent::ConnectFinished(false)) {
        LiveCheckAction::Finish(Err(e)) => assert_eq!(e.message(), "Couldn't connect to server"),
        _ => panic!("expected a failure"),
    }
    let mut s = SftpService { connected: true };
    match s.live_check(LiveCheckEvent::DisconnectFinished(false)) {
        LiveCheckAction::Finish(Err(e)) => assert!(e == SftpError::Disconnect),
        _ => panic!("expected a failure"),
    }
    assert!(s.connected);
}

#[test]
fn upload_runs_its_steps() {
    let mut s = SftpService::new();
    assert!(matches!(s.send_file(SendFileEvent::Start), SendFileAction::Connect));
    assert!(matches!(s.send_file(SendFileEvent::ConnectFinished(true)), SendFileAction::CreateRemote));
    assert!(matches!(s.send_file(SendFileEvent::RemoteCreated(true)), SendFileAction::ReadLocal));
    assert!(matches!(s.send_file(SendFileEvent::LocalRead(true)), SendFileAction::Write));
    assert!(matches!(s.send_file(SendFileEvent::Written(true)), SendFileAction::Disconnect));
    s.connected = true;
    assert!(matches!(s.send_file(SendFileEvent::DisconnectFinished(true)), SendFileAction::Finish(Ok(()))));
    assert!(!s.connected);
}

#[test]
fn upload_reports_only_read_and_write_errors() {
    let mut s = SftpService::new();
    assert!(matches!(s.send_file(SendFileEvent::ConnectFinished(false)), SendFileAction::Finish(Ok(()))));
    assert!(matches!(s.send_file(SendFileEvent::RemoteCreated(false)), SendFileAction::Finish(Ok(()))));
    match s.send_file(SendFileEvent::LocalRead(false)) {
        SendFileAction::Finish(Err(e)) => assert_eq!(e.message(), "Could not read file!"),
        _ => panic!("expected a read error"),
    }
    match s.send_file(SendFileEvent::Written(false)) {
        SendFileAction::Finish(Err(e)) => assert_eq!(e.message(), "Couldn't write file"),
        _ => panic!("expected a write error"),
    }
    let mut s = SftpService { connected: true };
    assert!(matches!(s.send_file(SendFileEvent::DisconnectFinished(false)), SendFileAction::Finish(Ok(()))));
    assert!(s.connected);
}
