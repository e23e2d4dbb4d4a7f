use std::collections::HashMap;

use spellhold::broker::{ProducerSession, SessionStep};
use spellhold::client::{join_id, make_id_string, StdinHandle};
use spellhold::daemon::{render_entry, Daemon, Directive, LogEntry};
use spellhold::event::SendEvt;
use spellhold::gate::{writer_action, RelayGate, WriterAction};

fn s(x: &str) -> String {
    x.to_string()
}

/// Runs the producer lines of one session through its decoder, as the broker
/// does, and returns the events it emits.
fn session_events(id: &str, lines: &[&str]) -> Vec<SendEvt> {
    let session = ProducerSession::new(s(id));
    let mut out = vec![session.connect_event()];
    for line in lines {
        match session.on_line(line) {
            SessionStep::Emit(e) => out.push(e),
            SessionStep::Finish(e) => {
                out.push(e);
                return out;
            }
            SessionStep::Skip => {}
            SessionStep::Abort(_) => return out,
        }
    }
    match session.on_eof() {
        SessionStep::Finish(e) => out.push(e),
        _ => unreachable!(),
    }
    out
}

/// Feeds events to the event loop, writing logs into a map; returns whether
/// the loop stopped.
fn run_loop(
    daemon: &Daemon,
    gate: &mut RelayGate,
    events: Vec<SendEvt>,
    logs: &mut HashMap<String, Vec<String>>,
) -> bool {
    for (t, e) in events.into_iter().enumerate() {
        let d = daemon.handle(&e, gate);
        if let Some((id, entry)) = d.append {
            logs.entry(id).or_default().push(render_entry(&entry, 1000 + t as u64));
        }
        if d.stop {
            return true;
        }
        daemon.forward(e, gate);
    }
    false
}

#[test]
fn gate_refuses_a_second_viewer() {
    let mut gate = RelayGate::new();
    assert!(!gate.is_open());
    assert!(gate.attach());
    assert!(!gate.attach());
    assert!(gate.is_open());
}

#[test]
fn gate_drops_while_closed_and_queues_while_open() {
    let mut gate = RelayGate::new();
    assert!(!gate.try_send(SendEvt::SendString(s("a"), s("early"))));
    assert!(gate.attach());
    assert!(gate.try_send(SendEvt::SendString(s("a"), s("late"))));
    assert_eq!(gate.take_pending(), vec![SendEvt::SendString(s("a"), s("late"))]);
    assert!(gate.take_pending().is_empty());
    gate.close();
    gate.close();
    assert!(!gate.is_open());
}

#[test]
fn no_replay_to_a_late_viewer() {
    let daemon = Daemon::default();
    let mut gate = RelayGate::new();
    let mut logs = HashMap::new();
    run_loop(&daemon, &mut gate, session_events("p", &["p -ENDID- before"]), &mut logs);
    assert!(gate.attach());
    assert!(gate.take_pending().is_empty());
    run_loop(&daemon, &mut gate, session_events("q", &["q -ENDID- after"]), &mut logs);
    assert_eq!(gate.take_pending(), vec![SendEvt::SendString(s("q"), s("after"))]);
}

#[test]
fn attached_viewer_gets_lines_in_order() {
    let daemon = Daemon::default();
    let mut gate = RelayGate::new();
    assert!(gate.attach());
    let mut logs = HashMap::new();
    run_loop(
        &daemon,
        &mut gate,
        session_events("ann", &["ann -ENDID- one", "ann -ENDID- two words", "ann -ENDID- three"]),
        &mut logs,
    );
    let written: Vec<String> = gate
        .take_pending()
        .iter()
        .filter_map(|e| match writer_action(e) {
            WriterAction::Write(line) => Some(line),
            _ => None,
        })
        .collect();
    assert_eq!(
        written,
        vec![s("ann -ENDID- one"), s("ann -ENDID- two words"), s("ann -ENDID- three")]
    );
}

#[test]
fn writer_actions() {
    assert_eq!(
        writer_action(&SendEvt::SendString(s("a"), s("b"))),
        WriterAction::Write(s("a -ENDID- b"))
    );
    assert_eq!(writer_action(&SendEvt::Kill), WriterAction::Stop);
    assert_eq!(writer_action(&SendEvt::End), WriterAction::Skip);
}

#[test]
fn each_producer_log_keeps_its_own_lines_in_order() {
    let daemon = Daemon::default();
    let mut gate = RelayGate::new();
    let a = session_events("a", &["a -ENDID- 1", "a -ENDID- 2", "a -ENDID- 3"]);
    let b = session_events("b", &["b -ENDID- x", "b -ENDID- y", "b -ENDID- z"]);
    // interleave the two streams event by event
    let mut mixed = Vec::new();
    let mut ia = a.into_iter();
    let mut ib = b.into_iter();
    loop {
        let (x, y) = (ia.next(), ib.next());
        if x.is_none() && y.is_none() {
            break;
        }
        mixed.extend(x);
        mixed.extend(y);
    }
    let mut logs = HashMap::new();
    assert!(!run_loop(&daemon, &mut gate, mixed, &mut logs));
    assert_eq!(logs["a"][1..].to_vec(), vec![s("1"), s("2"), s("3")]);
    assert_eq!(logs["b"][1..].to_vec(), vec![s("x"), s("y"), s("z")]);
    assert!(logs["a"][0].ends_with(" - connected"));
    assert!(logs["b"][0].ends_with(" - connected"));
}

#[test]
fn kill_stops_the_loop_and_closes_the_gate() {
    let daemon = Daemon::default();
    let mut gate = RelayGate::new();
    assert!(gate.attach());
    let d = daemon.handle(&SendEvt::Kill, &mut gate);
    assert_eq!(d, Directive { append: None, stop: true });
    assert!(!gate.is_open());
    assert_eq!(gate.take_pending(), vec![SendEvt::Kill]);
}

#[test]
fn kill_without_viewer_stops_the_loop() {
    let daemon = Daemon::default();
    let mut gate = RelayGate::new();
    let mut logs = HashMap::new();
    let stopped = run_loop(
        &daemon,
        &mut gate,
        session_events("k", &["k -ENDID- last", "kill", "k -ENDID- never"]),
        &mut logs,
    );
    assert!(stopped);
    assert!(!gate.is_open());
    assert!(gate.take_pending().is_empty());
    assert_eq!(logs["k"].len(), 2);
    assert_eq!(logs["k"][1], "last");
}

#[test]
fn scenario_alice_logs_hello_world() {
    let daemon = Daemon::default();
    let mut gate = RelayGate::new();
    let mut logs = HashMap::new();
    let events = session_events("alice", &["alice -ENDID- hello", "alice -ENDID- world", "end"]);
    let stopped = run_loop(&daemon, &mut gate, events, &mut logs);
    assert!(!stopped);
    assert_eq!(logs["alice"], vec![s("1000 - connected"), s("hello"), s("world")]);
}

#[test]
fn end_and_empty_events_do_nothing() {
    let daemon = Daemon::default();
    let mut gate = RelayGate::new();
    assert!(gate.attach());
    assert_eq!(daemon.handle(&SendEvt::End, &mut gate), Directive { append: None, stop: false });
    assert_eq!(daemon.handle(&SendEvt::Nothing, &mut gate), Directive { append: None, stop: false });
    assert!(gate.take_pending().is_empty());
}

#[test]
fn connect_appends_marker_only() {
    let daemon = Daemon::new(None, false);
    let mut gate = RelayGate::new();
    assert!(gate.attach());
    let d = daemon.handle(&SendEvt::Connect(s("c")), &mut gate);
    assert_eq!(d, Directive { append: Some((s("c"), LogEntry::Connected)), stop: false });
    assert!(gate.take_pending().is_empty());
}

#[test]
fn rendered_entries() {
    assert_eq!(render_entry(&LogEntry::Connected, 1700000000), "1700000000 - connected");
    assert_eq!(render_entry(&LogEntry::Connected, 0), "0 - connected");
    assert_eq!(render_entry(&LogEntry::Line(s("text here")), 5), "text here");
}

#[test]
fn daemon_settings() {
    let d = Daemon::new(None, false);
    assert_eq!(d.socket(), "/tmp/spellholdd_socket");
    assert!(!d.quiet());
    let d = Daemon::new(Some(s("/run/x.sock")), true);
    assert_eq!(d.socket(), "/run/x.sock");
    assert!(d.quiet());
    let d = Daemon::default();
    assert_eq!(d.socket(), "/tmp/spellholdd_socket");
    assert!(d.quiet());
}

#[test]
fn producer_lines() {
    let h = StdinHandle::new(s("/tmp/sock"), true);
    assert_eq!(h.socket(), "/tmp/sock");
    assert!(h.quiet());
    assert_eq!(h.handshake("id_1"), "connect -ID- id_1");
    assert_eq!(h.data_line("id_1", "some text"), "id_1 -ENDID- some text");
    assert_eq!(h.end_line(), "end");
}

#[test]
fn id_strings() {
    assert_eq!(join_id("alice", 42), "alice_42");
    assert_eq!(make_id_string(Some(s("bob")), 1700000000), "bob_1700000000");
    let id = make_id_string(None, 7);
    assert_eq!(id.len(), 12);
    assert!(id.ends_with("_7"));
    assert!(id[..10].chars().all(|c| c.is_ascii_alphanumeric()));
}

#[test]
fn handle_forwards_nothing_until_asked() {
    let daemon = Daemon::default();
    let mut gate = RelayGate::new();
    assert!(gate.attach());
    let line = SendEvt::SendString(s("a"), s("x"));
    let d = daemon.handle(&line, &mut gate);
    assert_eq!(d, Directive { append: Some((s("a"), LogEntry::Line(s("x")))), stop: false });
    assert!(gate.take_pending().is_empty());
    assert!(daemon.forward(line, &mut gate));
    assert_eq!(gate.take_pending(), vec![SendEvt::SendString(s("a"), s("x"))]);
}

#[test]
fn forward_ignores_other_events_and_closed_relay() {
    let daemon = Daemon::default();
    let mut gate = RelayGate::new();
    assert!(!daemon.forward(SendEvt::SendString(s("a"), s("x")), &mut gate));
    assert!(gate.attach());
    assert!(!daemon.forward(SendEvt::Connect(s("a")), &mut gate));
    assert!(!daemon.forward(SendEvt::End, &mut gate));
    assert!(gate.take_pending().is_empty());
}
