use pglisten::frame::{interpret_query, interpret_startup, QueryReport, StartupReport};
use pglisten::runloop::{advance, phase_io, Effect, Event, IoOp, Phase};

#[test]
fn each_phase_demands_its_call() {
    assert_eq!(phase_io(Phase::Listening), IoOp::AwaitPeer);
    assert_eq!(phase_io(Phase::AwaitingStartup), IoOp::ReadFrame);
    assert_eq!(phase_io(Phase::AwaitingQuery), IoOp::ReadFrame);
    assert_eq!(phase_io(Phase::Closing), IoOp::CloseConnection);
}

#[test]
fn accept_failure_is_never_fatal() {
    assert_eq!(
        advance(Phase::Listening, Event::AcceptFailed),
        (Phase::Listening, Effect::ReportAcceptError)
    );
}

#[test]
fn startup_read_of_zero_bytes_is_still_decoded() {
    assert_eq!(
        advance(Phase::AwaitingStartup, Event::Received(0)),
        (Phase::AwaitingQuery, Effect::DecodeStartup)
    );
}

#[test]
fn query_read_of_zero_bytes_is_not_decoded() {
    assert_eq!(
        advance(Phase::AwaitingQuery, Event::Received(0)),
        (Phase::Closing, Effect::Quiet)
    );
}

#[test]
fn failed_reads_abandon_the_connection() {
    assert_eq!(
        advance(Phase::AwaitingStartup, Event::ReceiveFailed),
        (Phase::Closing, Effect::ReportReadError)
    );
    assert_eq!(
        advance(Phase::AwaitingQuery, Event::ReceiveFailed),
        (Phase::Closing, Effect::ReportReadError)
    );
    assert_eq!(advance(Phase::Closing, Event::Closed), (Phase::Listening, Effect::Quiet));
}

#[test]
fn full_session_logs_version_then_query_then_listens_again() {
    // One complete session, as a peer would drive it: connect, send an
    // 8-byte startup frame with version 196608, send a Q-tagged frame with
    // "SELECT 1".  The loop must report the 3.0 version first, the query
    // text second, and be accepting again afterwards.
    let mut startup: Vec<u8> = vec![0, 0, 0, 8];
    startup.extend_from_slice(&196608u32.to_be_bytes());
    let mut query: Vec<u8> = vec![b'Q', 0, 0, 0, 13];
    query.extend_from_slice(b"SELECT 1");

    let mut log: Vec<String> = Vec::new();
    let mut phase = Phase::Listening;

    assert_eq!(phase_io(phase), IoOp::AwaitPeer);
    let (next, effect) = advance(phase, Event::Accepted);
    phase = next;
    assert_eq!(effect, Effect::Quiet);

    assert_eq!(phase_io(phase), IoOp::ReadFrame);
    let (next, effect) = advance(phase, Event::Received(startup.len()));
    phase = next;
    assert_eq!(effect, Effect::DecodeStartup);
    match interpret_startup(&startup) {
        StartupReport::VersionThreeZero => log.push("protocol version 3.0".to_string()),
        other => panic!("unexpected startup report: {:?}", other),
    }

    assert_eq!(phase_io(phase), IoOp::ReadFrame);
    let (next, effect) = advance(phase, Event::Received(query.len()));
    phase = next;
    assert_eq!(effect, Effect::DecodeQuery);
    match interpret_query(&query) {
        QueryReport::Query { text } => log.push(text),
        other => panic!("unexpected query report: {:?}", other),
    }

    assert_eq!(phase_io(phase), IoOp::CloseConnection);
    let (next, effect) = advance(phase, Event::Closed);
    phase = next;
    assert_eq!(effect, Effect::Quiet);

    assert_eq!(log.len(), 2);
    assert_eq!(log[0], "protocol version 3.0");
    assert_eq!(log[1], "SELECT 1");
    // The loop is back where it started: still accepting new connections.
    assert_eq!(phase, Phase::Listening);
    assert_eq!(phase_io(phase), IoOp::AwaitPeer);
}
