use spellhold::broker::{handshake_line, Handshake, HandlesTaken, ProducerSession, SessionStep, SocketHandler};
use spellhold::event::{frame_line, is_exactly, parse_frame, DecodeError, SendEvt};
use spellhold::text::{decimal_string, find, matches_at_pos};

fn s(x: &str) -> String {
    x.to_string()
}

#[test]
fn decode_terminators_and_empty() {
    assert_eq!(SendEvt::decode("kill"), Ok(SendEvt::Kill));
    assert_eq!(SendEvt::decode("end"), Ok(SendEvt::End));
    assert_eq!(SendEvt::decode(""), Ok(SendEvt::Nothing));
}

#[test]
fn decode_framed_line() {
    assert_eq!(
        SendEvt::decode("alice -ENDID- hello"),
        Ok(SendEvt::SendString(s("alice"), s("hello")))
    );
}

#[test]
fn decode_words_that_only_start_like_terminators() {
    assert_eq!(SendEvt::decode("killer"), Err(DecodeError::MissingSeparator));
    assert_eq!(SendEvt::decode("endless"), Err(DecodeError::MissingSeparator));
    assert_eq!(
        SendEvt::decode("kill -ENDID- x"),
        Ok(SendEvt::SendString(s("kill"), s("x")))
    );
}

#[test]
fn decode_without_separator_is_an_error() {
    assert_eq!(SendEvt::decode("alice hello"), Err(DecodeError::MissingSeparator));
}

#[test]
fn new_drops_undecodable_lines() {
    assert_eq!(SendEvt::new(s("no separator here")), SendEvt::Nothing);
    assert_eq!(SendEvt::new(s("kill")), SendEvt::Kill);
    assert_eq!(SendEvt::new(s("a -ENDID- b")), SendEvt::SendString(s("a"), s("b")));
}

#[test]
fn frame_keeps_content_with_spaces_and_separators() {
    let line = frame_line("bob", "x -ENDID- y z");
    assert_eq!(line, "bob -ENDID- x -ENDID- y z");
    assert_eq!(parse_frame(&line), Some((s("bob"), s("x -ENDID- y z"))));
}

#[test]
fn frame_with_empty_content() {
    assert_eq!(parse_frame("bob -ENDID- "), Some((s("bob"), s(""))));
    assert_eq!(parse_frame("bob -ENDID-"), None);
}

#[test]
fn frame_of_non_ascii_text() {
    let line = frame_line("zoë", "héllo wörld");
    assert_eq!(parse_frame(&line), Some((s("zoë"), s("héllo wörld"))));
}

#[test]
fn handshake_classification() {
    assert_eq!(Handshake::parse("connect -ID- alice"), Handshake::Producer(s("alice")));
    assert_eq!(Handshake::parse("client"), Handshake::Viewer);
    assert_eq!(Handshake::parse("clientele"), Handshake::Viewer);
    assert_eq!(Handshake::parse("connect"), Handshake::Reject);
    assert_eq!(Handshake::parse("connect -ID- "), Handshake::Reject);
    assert_eq!(Handshake::parse("connect -ID- a b"), Handshake::Producer(s("a b")));
    assert_eq!(Handshake::parse("connect -ID-  x "), Handshake::Producer(s(" x ")));
    assert_eq!(Handshake::parse(""), Handshake::Reject);
    assert_eq!(Handshake::parse("hello"), Handshake::Reject);
}

#[test]
fn handshake_line_round_trip() {
    let line = handshake_line("bob_17");
    assert_eq!(line, "connect -ID- bob_17");
    assert_eq!(Handshake::parse(&line), Handshake::Producer(s("bob_17")));
}

#[test]
fn id_with_spaces_goes_through_a_session() {
    let id = "my job_17";
    assert_eq!(Handshake::parse(&handshake_line(id)), Handshake::Producer(s(id)));
    let session = ProducerSession::new(s(id));
    assert_eq!(
        session.on_line(&frame_line(id, "a b -ENDID- c")),
        SessionStep::Emit(SendEvt::SendString(s(id), s("a b -ENDID- c")))
    );
    assert_eq!(parse_frame(&frame_line(id, "x")), Some((s(id), s("x"))));
}

#[test]
fn id_that_runs_into_the_separator_is_still_logged_under_itself() {
    let id = "a -ENDID-";
    let session = ProducerSession::new(s(id));
    assert_eq!(
        session.on_line(&frame_line(id, "c")),
        SessionStep::Emit(SendEvt::SendString(s(id), s("c")))
    );
}

#[test]
fn session_steps() {
    let session = ProducerSession::new(s("alice"));
    assert_eq!(session.connect_event(), SendEvt::Connect(s("alice")));
    assert_eq!(
        session.on_line("alice -ENDID- hello"),
        SessionStep::Emit(SendEvt::SendString(s("alice"), s("hello")))
    );
    assert_eq!(session.on_line("bob -ENDID- hi"), SessionStep::Abort(DecodeError::ForeignId));
    assert_eq!(session.on_line("garbage"), SessionStep::Abort(DecodeError::MissingSeparator));
    assert_eq!(session.on_line(""), SessionStep::Skip);
    assert_eq!(session.on_line("kill"), SessionStep::Finish(SendEvt::Kill));
    assert_eq!(session.on_line("end"), SessionStep::Finish(SendEvt::End));
    assert_eq!(session.on_eof(), SessionStep::Finish(SendEvt::End));
    assert_eq!(session.id(), "alice");
}

#[test]
fn client_handles_are_taken_once() {
    let mut broker = SocketHandler::new();
    let gate = broker.get_client_handles().expect("first take");
    assert!(!gate.is_open());
    assert!(matches!(broker.get_client_handles(), Err(HandlesTaken)));
}

#[test]
fn text_helpers() {
    assert_eq!(find("abcabc", "ca"), Some(2));
    assert_eq!(find("abc", "x"), None);
    assert_eq!(find("ab", "abc"), None);
    assert_eq!(find("abc", ""), Some(0));
    assert!(matches_at_pos("abc", "bc", 1));
    assert!(!matches_at_pos("abc", "bc", 2));
    assert!(!matches_at_pos("abc", "bc", 9));
    assert!(is_exactly("end", "end"));
    assert!(!is_exactly("ends", "end"));
}

#[test]
fn decimal_strings() {
    assert_eq!(decimal_string(0), "0");
    assert_eq!(decimal_string(7), "7");
    assert_eq!(decimal_string(42), "42");
    assert_eq!(decimal_string(1700000000), "1700000000");
    assert_eq!(decimal_string(u64::MAX), "18446744073709551615");
}
