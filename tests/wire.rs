use jobboard::{
    frame_payload, ActorState, ActorStep, App, Command, ConnectionActor, Frame, Handshake,
    HubAction, HubEvent, JobId, JobMessage, Payload,
};

fn handshake(s: &str, total: usize) -> Handshake {
    Handshake { id: JobId(s.to_string()), total_epochs: total }
}

/// Hands the event of a step to the hub, as the connection's task does.
fn deliver(app: &mut App, step: ActorStep) -> bool {
    match step {
        ActorStep::Send(e) => {
            assert_eq!(app.handle_event_at(e, "08:15".to_string()), HubAction::Continue);
            true
        }
        ActorStep::SendAndClose(e) => {
            assert_eq!(app.handle_event_at(e, "08:15".to_string()), HubAction::Continue);
            false
        }
        ActorStep::Close => false,
        ActorStep::Stay => true,
    }
}

#[test]
fn frame_sentinel() {
    assert!(matches!(frame_payload(b"FINISH"), Frame::Sentinel));
}

#[test]
fn frame_text() {
    match frame_payload(b"{\"current_epoch\":1}") {
        Frame::Text(t) => assert_eq!(t, "{\"current_epoch\":1}"),
        other => panic!("unexpected frame {:?}", other),
    }
    match frame_payload("FINISHED é".as_bytes()) {
        Frame::Text(t) => assert_eq!(t, "FINISHED é"),
        other => panic!("unexpected frame {:?}", other),
    }
}

#[test]
fn frame_garbled() {
    assert!(matches!(frame_payload(&[0x46, 0xff, 0xfe]), Frame::Garbled));
}

#[test]
fn sentinel_after_handshake_finishes_job() {
    let mut app = App::new();
    let mut actor = ConnectionActor::new();
    assert!(actor.awaits_handshake());
    assert!(deliver(&mut app, actor.on_payload(Payload::Handshake(handshake("job-7", 3)))));
    assert!(!actor.awaits_handshake());
    assert_eq!(app.current_jobs.len(), 1);
    let step = actor.on_payload(Payload::Sentinel);
    assert!(matches!(step, ActorStep::SendAndClose(HubEvent::ConnectionDropped(ref j)) if j.0 == "job-7"));
    assert!(!deliver(&mut app, step));
    assert!(matches!(actor.state, ActorState::Closed));
    assert!(app.current_jobs.is_empty());
    assert_eq!(app.finished_jobs.len(), 1);
    assert_eq!(app.finished_jobs[0].id.0, "job-7");
}

#[test]
fn malformed_update_keeps_connection_and_state() {
    let mut app = App::new();
    let mut actor = ConnectionActor::new();
    deliver(&mut app, actor.on_payload(Payload::Handshake(handshake("m", 10))));
    let step = actor.on_payload(Payload::Malformed);
    assert!(matches!(step, ActorStep::Stay));
    assert!(deliver(&mut app, step));
    assert!(matches!(actor.state, ActorState::Established(ref j) if j.0 == "m"));
    assert_eq!(app.current_jobs[0].current_epoch, 0);
    assert!(app.current_jobs[0].messages.is_empty());
    let update = JobMessage { current_epoch: Some(6), total_epochs: None, message: None };
    assert!(deliver(&mut app, actor.on_payload(Payload::Update(update))));
    assert_eq!(app.current_jobs[0].current_epoch, 6);
    assert_eq!(app.current_jobs[0].total_epochs, 10);
}

#[test]
fn payload_before_handshake_drops_connection() {
    for first in [
        Payload::Sentinel,
        Payload::Malformed,
        Payload::Update(JobMessage { current_epoch: Some(1), total_epochs: None, message: None }),
    ] {
        let mut app = App::new();
        app.register(handshake("existing", 2));
        let mut actor = ConnectionActor::new();
        let step = actor.on_payload(first);
        assert!(matches!(step, ActorStep::Close));
        assert!(!deliver(&mut app, step));
        assert!(matches!(actor.state, ActorState::Closed));
        assert_eq!(app.current_jobs.len(), 1);
    }
}

#[test]
fn closed_connection_stays_closed() {
    let mut actor = ConnectionActor::new();
    actor.on_payload(Payload::Malformed);
    assert!(matches!(actor.on_payload(Payload::Handshake(handshake("late", 1))), ActorStep::Close));
    assert!(matches!(actor.state, ActorState::Closed));
}

#[test]
fn cancel_reports_end_of_registered_job() {
    let mut app = App::new();
    let mut actor = ConnectionActor::new();
    deliver(&mut app, actor.on_payload(Payload::Handshake(handshake("c", 4))));
    assert!(matches!(actor.on_command(Command::AllOk), ActorStep::Stay));
    let step = actor.on_command(Command::CancelJob);
    assert!(matches!(step, ActorStep::SendAndClose(HubEvent::ConnectionDropped(ref j)) if j.0 == "c"));
    deliver(&mut app, step);
    assert!(app.current_jobs.is_empty());
    assert_eq!(app.finished_jobs[0].id.0, "c");
    assert_eq!(app.finished_jobs[0].end_time, "08:15");
}

#[test]
fn cancel_before_handshake_just_closes() {
    let mut actor = ConnectionActor::new();
    assert!(matches!(actor.on_command(Command::CancelJob), ActorStep::Close));
    assert!(matches!(actor.state, ActorState::Closed));
}
