use avatarmud_client::echo::echo_flags;
use avatarmud_client::pump::InputPump;
use avatarmud_client::session::Session;
use avatarmud_client::session::SessionEvent;
use avatarmud_client::session::SessionOp;
use avatarmud_client::session::TelnetAction;
use avatarmud_client::session::gmcp_hello;
use avatarmud_client::session::gmcp_supports;
use avatarmud_client::session::ECHO_OPTION;
use avatarmud_client::session::GMCP_OPTION;

#[test]
fn pump_splits_first_poll() {
    let mut pump = InputPump::new();
    let lines = pump.poll(b"hello\nworld");
    assert_eq!(lines, vec![b"hello".to_vec()]);
    assert_eq!(pump.pending_bytes(), &b"world".to_vec());
}

#[test]
fn pump_completes_second_poll() {
    let mut pump = InputPump::new();
    let first = pump.poll(b"hello\nworld");
    assert_eq!(first, vec![b"hello".to_vec()]);
    let second = pump.poll(b"!\n");
    assert_eq!(second, vec![b"world!".to_vec()]);
    assert!(pump.pending_bytes().is_empty());
}

#[test]
fn pump_empty_poll_yields_nothing() {
    let mut pump = InputPump::new();
    let lines = pump.poll(b"");
    assert!(lines.is_empty());
    assert!(pump.pending_bytes().is_empty());
}

#[test]
fn pump_many_lines_in_one_poll() {
    let mut pump = InputPump::new();
    let lines = pump.poll(b"a\nb\nc\n");
    assert_eq!(lines, vec![b"a".to_vec(), b"b".to_vec(), b"c".to_vec()]);
    assert!(pump.pending_bytes().is_empty());
}

#[test]
fn pump_lone_newline_makes_empty_line() {
    let mut pump = InputPump::new();
    let lines = pump.poll(b"\n");
    assert_eq!(lines, vec![Vec::<u8>::new()]);
    assert!(pump.pending_bytes().is_empty());
}

#[test]
fn pump_round_trip_over_polls() {
    let feeds: Vec<&[u8]> = vec![b"ab", b"c\nde\n", b"", b"f\ng", b"h\n"];
    let mut pump = InputPump::new();
    let mut rejoined: Vec<u8> = Vec::new();
    for feed in &feeds {
        for line in pump.poll(feed) {
            rejoined.extend_from_slice(&line);
            rejoined.push(b'\n');
        }
    }
    rejoined.extend_from_slice(pump.pending_bytes());
    let mut fed: Vec<u8> = Vec::new();
    for feed in &feeds {
        fed.extend_from_slice(feed);
    }
    assert_eq!(rejoined, fed);
}

#[test]
fn react_data_flushes_after_plain_chunk() {
    let mut session = Session::new();
    let (ops, stop) = session.step(b"", SessionEvent::Data(b"prompt> ".to_vec()));
    assert_eq!(
        ops,
        vec![SessionOp::EmitOutput { bytes: b"prompt> ".to_vec(), flush: true }]
    );
    assert!(!stop);
}

#[test]
fn react_data_carriage_return_defers_flush() {
    let mut session = Session::new();
    let (ops, stop) = session.step(b"", SessionEvent::Data(b"partial\r".to_vec()));
    assert_eq!(
        ops,
        vec![SessionOp::EmitOutput { bytes: b"partial\r".to_vec(), flush: false }]
    );
    assert!(!stop);
}

#[test]
fn react_error_stops_cleanly() {
    let mut session = Session::new();
    let (ops, stop) = session.step(b"", SessionEvent::ProtocolError("connection lost".to_owned()));
    assert_eq!(ops, vec![SessionOp::ShowError("connection lost".to_owned())]);
    assert!(stop);
}

#[test]
fn react_echo_toggles_in_order() {
    let mut session = Session::new();
    let (will_ops, will_stop) =
        session.step(b"", SessionEvent::Negotiation(TelnetAction::Will, ECHO_OPTION));
    let (wont_ops, wont_stop) =
        session.step(b"", SessionEvent::Negotiation(TelnetAction::Wont, ECHO_OPTION));
    assert_eq!(will_ops, vec![SessionOp::SetEcho(false)]);
    assert_eq!(wont_ops, vec![SessionOp::SetEcho(true)]);
    assert!(!will_stop && !wont_stop);
}

#[test]
fn react_gmcp_offer_draws_three_replies() {
    let mut session = Session::new();
    let (ops, stop) =
        session.step(b"", SessionEvent::Negotiation(TelnetAction::Will, GMCP_OPTION));
    assert_eq!(
        ops,
        vec![
            SessionOp::SendNegotiation(TelnetAction::Do, GMCP_OPTION),
            SessionOp::SendSubnegotiation(
                GMCP_OPTION,
                "Core.Hello { \"client\": \"avatarmud-client-rs\", \"version\": \"0.1.0\" }"
                    .to_owned()
            ),
            SessionOp::SendSubnegotiation(
                GMCP_OPTION,
                "Core.Supports.Set [ \"Core 1\",\"Char 1\",\"Room 1\",\"Comm 1\",\"IRE.Composer 1\" ]"
                    .to_owned()
            ),
        ]
    );
    assert!(!stop);
}

#[test]
fn gmcp_payload_builders_match_wire_text() {
    assert_eq!(
        gmcp_hello(),
        "Core.Hello { \"client\": \"avatarmud-client-rs\", \"version\": \"0.1.0\" }"
    );
    assert_eq!(
        gmcp_supports(),
        "Core.Supports.Set [ \"Core 1\",\"Char 1\",\"Room 1\",\"Comm 1\",\"IRE.Composer 1\" ]"
    );
}

#[test]
fn react_gmcp_payload_is_surfaced() {
    let mut session = Session::new();
    let (ops, stop) = session.step(
        b"",
        SessionEvent::Subnegotiation(GMCP_OPTION, b"Char.Vitals { \"hp\": 10 }".to_vec()),
    );
    assert_eq!(ops, vec![SessionOp::ShowGmcp(b"Char.Vitals { \"hp\": 10 }".to_vec())]);
    assert!(!stop);
}

#[test]
fn react_unrelated_events_do_nothing() {
    let mut session = Session::new();
    let (a, _) = session.step(b"", SessionEvent::Negotiation(TelnetAction::Do, 31));
    let (b, _) = session.step(b"", SessionEvent::Subnegotiation(42, b"x".to_vec()));
    let (c, stop) = session.step(b"", SessionEvent::NoEvent);
    assert!(a.is_empty());
    assert!(b.is_empty());
    assert!(c.is_empty());
    assert!(!stop);
}

#[test]
fn step_sends_lines_before_reacting() {
    let mut session = Session::new();
    let (ops, stop) = session.step(
        b"look\n",
        SessionEvent::Negotiation(TelnetAction::Will, ECHO_OPTION),
    );
    assert_eq!(
        ops,
        vec![
            SessionOp::SendRemote(b"look".to_vec()),
            SessionOp::SendRemote(b"\n".to_vec()),
            SessionOp::SetEcho(false),
        ]
    );
    assert!(!stop);
}

#[test]
fn step_buffers_partial_line() {
    let mut session = Session::new();
    let (ops, stop) = session.step(b"par", SessionEvent::NoEvent);
    assert!(ops.is_empty());
    assert!(!stop);
    assert_eq!(session.pending_bytes(), &b"par".to_vec());
    let (ops2, _) = session.step(b"tial\nn", SessionEvent::NoEvent);
    assert_eq!(ops2, vec![
        SessionOp::SendRemote(b"partial".to_vec()),
        SessionOp::SendRemote(b"\n".to_vec()),
    ]);
    assert_eq!(session.pending_bytes(), &b"n".to_vec());
}

#[test]
fn echo_flags_sets_and_clears_only_the_mask() {
    let mask: u32 = 0o10;
    let others: u32 = 0o10017;
    assert_eq!(echo_flags(others, mask, true), others | mask);
    assert_eq!(echo_flags(others | mask, mask, false), others & !mask);
    assert_eq!(echo_flags(0, mask, false), 0);
}

#[test]
fn echo_flags_idempotent() {
    let mask: u32 = 0o10;
    for lflag in [0u32, 0o777, 0o10, 0xffff_ffff] {
        for enabled in [false, true] {
            let once = echo_flags(lflag, mask, enabled);
            let twice = echo_flags(once, mask, enabled);
            assert_eq!(once, twice);
        }
    }
}
