use orderbook_server::codec::{Commodity, Message, Operation};
use orderbook_server::conn::{conn_step, ConnAction, ConnEvent, ConnState};
use orderbook_server::engine::OrderBook;

#[test]
fn valid_line_is_forwarded_and_acked() {
    let (state, action) = conn_step(ConnState::Active, ConnEvent::Line(b"BUY:APPLE".to_vec()));
    assert_eq!(state, ConnState::Active);
    assert_eq!(
        action,
        ConnAction::ForwardThenAck(
            Message {
                operation: Operation::Buy,
                commodity: Commodity::Apple
            },
            b"ACK:APPLE".to_vec()
        )
    );
}

#[test]
fn malformed_line_is_answered_in_place() {
    let (state, action) = conn_step(ConnState::Active, ConnEvent::Line(b"BUYTOMATO".to_vec()));
    assert_eq!(state, ConnState::Active);
    assert_eq!(action, ConnAction::Write(b"Invalid order command.".to_vec()));

    let (state, action) = conn_step(ConnState::Active, ConnEvent::Line(b"asdf:TOMATO".to_vec()));
    assert_eq!(state, ConnState::Active);
    assert_eq!(action, ConnAction::Write(b"Operation not supported.".to_vec()));

    let (state, action) = conn_step(ConnState::Active, ConnEvent::Line(b"BUY:asdf".to_vec()));
    assert_eq!(state, ConnState::Active);
    assert_eq!(action, ConnAction::Write(b"Commodity not supported.".to_vec()));

    let (state, action) = conn_step(
        ConnState::Active,
        ConnEvent::Line(b"BUY:TOMATO:APPLE".to_vec()),
    );
    assert_eq!(state, ConnState::Active);
    assert_eq!(action, ConnAction::Write(b"Invalid order command.".to_vec()));
}

#[test]
fn trade_event_writes_one_trade_line() {
    let (state, action) = conn_step(ConnState::Active, ConnEvent::Trade(Commodity::Apple));
    assert_eq!(state, ConnState::Active);
    assert_eq!(action, ConnAction::Write(b"TRADE:APPLE".to_vec()));
}

#[test]
fn trade_event_fans_out_to_every_subscriber() {
    // N active connections, one trade: each produces exactly one line.
    let subscribers = [ConnState::Active; 5];
    for state in subscribers {
        let (next, action) = conn_step(state, ConnEvent::Trade(Commodity::Onion));
        assert_eq!(next, ConnState::Active);
        assert_eq!(action, ConnAction::Write(b"TRADE:ONION".to_vec()));
    }
}

#[test]
fn lag_is_reported_not_fatal() {
    let (state, action) = conn_step(ConnState::Active, ConnEvent::Lagged(7));
    assert_eq!(state, ConnState::Active);
    assert_eq!(action, ConnAction::ReportLag(7));
}

#[test]
fn inbound_end_closes_silently() {
    let (state, action) = conn_step(ConnState::Active, ConnEvent::InboundClosed);
    assert_eq!(state, ConnState::Closed);
    assert_eq!(action, ConnAction::Idle);
}

#[test]
fn subscription_end_closes_silently() {
    let (state, action) = conn_step(ConnState::Active, ConnEvent::SubscriptionClosed);
    assert_eq!(state, ConnState::Closed);
    assert_eq!(action, ConnAction::Idle);
}

#[test]
fn closed_connection_is_inert() {
    for event in [
        ConnEvent::Line(b"BUY:APPLE".to_vec()),
        ConnEvent::InboundClosed,
        ConnEvent::Trade(Commodity::Pear),
        ConnEvent::Lagged(3),
        ConnEvent::SubscriptionClosed,
    ] {
        let (state, action) = conn_step(ConnState::Closed, event);
        assert_eq!(state, ConnState::Closed);
        assert_eq!(action, ConnAction::Idle);
    }
}

/// Drive an event through one connection; forward any valid intent to the
/// book and collect the lines that would be written to that client,
/// including the trade lines broadcast back to every active connection.
fn drive(
    states: &mut Vec<ConnState>,
    outputs: &mut Vec<Vec<Vec<u8>>>,
    book: &mut OrderBook,
    who: usize,
    event: ConnEvent,
) {
    let (next, action) = conn_step(states[who], event);
    states[who] = next;
    match action {
        ConnAction::Write(line) => outputs[who].push(line),
        ConnAction::ForwardThenAck(msg, ack) => {
            assert!(book.check_capacity(&msg));
            let fired = book.process_intent(msg);
            outputs[who].push(ack);
            if let Some(commodity) = fired {
                // Broadcast: every connection still subscribed sees the event.
                for other in 0..states.len() {
                    let (n, a) = conn_step(states[other], ConnEvent::Trade(commodity));
                    states[other] = n;
                    if let ConnAction::Write(line) = a {
                        outputs[other].push(line);
                    }
                }
            }
        }
        ConnAction::ReportLag(_) => {}
        ConnAction::Idle => {}
    }
}

#[test]
fn two_client_session() {
    // A whole session at the logic level: two clients, interleaved buys
    // and sells, malformed lines, a disconnect.
    let alice = 0;
    let bob = 1;
    let mut states = vec![ConnState::Active, ConnState::Active];
    let mut outputs: Vec<Vec<Vec<u8>>> = vec![Vec::new(), Vec::new()];
    let mut book = OrderBook::new();

    drive(
        &mut states,
        &mut outputs,
        &mut book,
        alice,
        ConnEvent::Line(b"BUY:APPLE".to_vec()),
    );
    assert_eq!(outputs[alice].last().unwrap(), &b"ACK:APPLE".to_vec());
    drive(
        &mut states,
        &mut outputs,
        &mut book,
        alice,
        ConnEvent::Line(b"BUY:APPLE".to_vec()),
    );
    drive(
        &mut states,
        &mut outputs,
        &mut book,
        bob,
        ConnEvent::Line(b"SELL:ONION".to_vec()),
    );
    assert_eq!(outputs[bob].last().unwrap(), &b"ACK:ONION".to_vec());
    // No trade yet.
    assert!(!outputs[alice].iter().any(|l| l.starts_with(b"TRADE:")));
    assert!(!outputs[bob].iter().any(|l| l.starts_with(b"TRADE:")));

    // Bob's sell meets Alice's buy backlog: both clients see the trade.
    drive(
        &mut states,
        &mut outputs,
        &mut book,
        bob,
        ConnEvent::Line(b"SELL:APPLE".to_vec()),
    );
    assert_eq!(outputs[alice].last().unwrap(), &b"TRADE:APPLE".to_vec());
    assert_eq!(outputs[bob].last().unwrap(), &b"TRADE:APPLE".to_vec());

    // A buy meets Bob's onion sell: a trade again, seen by both.
    drive(
        &mut states,
        &mut outputs,
        &mut book,
        alice,
        ConnEvent::Line(b"BUY:ONION".to_vec()),
    );
    assert_eq!(outputs[alice].last().unwrap(), &b"TRADE:ONION".to_vec());
    assert_eq!(outputs[bob].last().unwrap(), &b"TRADE:ONION".to_vec());

    // Malformed lines on Bob's connection are answered only there and do
    // not move any counter.
    let apple_before = book.get_counter(Commodity::Apple);
    let alice_lines = outputs[alice].len();
    drive(
        &mut states,
        &mut outputs,
        &mut book,
        bob,
        ConnEvent::Line(b"asdf:TOMATO".to_vec()),
    );
    assert_eq!(
        outputs[bob].last().unwrap(),
        &b"Operation not supported.".to_vec()
    );
    drive(
        &mut states,
        &mut outputs,
        &mut book,
        bob,
        ConnEvent::Line(b"BUYTOMATO".to_vec()),
    );
    assert_eq!(
        outputs[bob].last().unwrap(),
        &b"Invalid order command.".to_vec()
    );
    assert_eq!(book.get_counter(Commodity::Apple), apple_before);
    assert_eq!(outputs[alice].len(), alice_lines);

    // Alice disconnects; Bob's intents still reach the engine.
    drive(
        &mut states,
        &mut outputs,
        &mut book,
        alice,
        ConnEvent::InboundClosed,
    );
    assert_eq!(states[alice], ConnState::Closed);
    drive(
        &mut states,
        &mut outputs,
        &mut book,
        bob,
        ConnEvent::Line(b"BUY:TOMATO".to_vec()),
    );
    assert_eq!(states[bob], ConnState::Active);
    assert_eq!(outputs[bob].last().unwrap(), &b"ACK:TOMATO".to_vec());
    assert_eq!(book.get_counter(Commodity::Tomato), 1);
    // The closed connection saw nothing more.
    assert_eq!(outputs[alice].len(), alice_lines);
}
