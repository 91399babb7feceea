use crate::codec::{
    ack_line, error_line, format_ack, format_error, format_trade, parse, parse_result, trade_line,
    Commodity, Message, ParseError,
};
use vstd::prelude::*;

verus! {

/// The lifecycle of one client connection.
#[derive(Clone, Copy, Debug, PartialEq, Eq, Structural)]
pub enum ConnState {
    /// Waiting on both event sources: the inbound line stream and the
    /// connection's trade subscription.
    Active,
    /// Terminal: the socket is released and nothing more is written.
    Closed,
}

/// One event a connection can observe.
#[derive(Debug, PartialEq, Eq)]
pub enum ConnEvent {
    /// A full line arrived from the client.
    Line(Vec<u8>),
    /// The inbound stream ended: end-of-stream, a reset, or another read
    /// error — each ends the connection the same way.
    InboundClosed,
    /// The trade subscription delivered a trade for this commodity.
    Trade(Commodity),
    /// The subscription fell behind and this many events were dropped.
    Lagged(u64),
    /// The subscription terminated.
    SubscriptionClosed,
}

/// What the runtime around the connection must do after a step.
#[derive(Debug, PartialEq, Eq)]
pub enum ConnAction {
    /// Write this line to the client.
    Write(Vec<u8>),
    /// Forward the intent to the engine mailbox, then write this
    /// acknowledgement line to the client.
    ForwardThenAck(Message, Vec<u8>),
    /// Report that this many trade events were dropped; nothing is written
    /// and the connection stays up.
    ReportLag(u64),
    /// Do nothing.
    Idle,
}

/// A spec-level picture of an action, with lines as byte sequences.
pub enum ActionModel {
    Write(Seq<u8>),
    ForwardThenAck(Message, Seq<u8>),
    ReportLag(u64),
    Idle,
}

/// The action an executable step produced, seen at the spec level.
pub open spec fn action_model(a: ConnAction) -> ActionModel {
    match a {
        ConnAction::Write(l) => ActionModel::Write(l@),
        ConnAction::ForwardThenAck(m, l) => ActionModel::ForwardThenAck(m, l@),
        ConnAction::ReportLag(n) => ActionModel::ReportLag(n),
        ConnAction::Idle => ActionModel::Idle,
    }
}

/// The connection state machine: the next state and the required action
/// for every state and event. A closed connection is inert. An active one
/// answers a malformed line with its error text, forwards a valid intent
/// and acknowledges it, writes a trade line for each delivered trade,
/// merely reports lag, and closes when either source ends.
pub open spec fn step_model(s: ConnState, e: ConnEvent) -> (ConnState, ActionModel) {
    match s {
        ConnState::Closed => (ConnState::Closed, ActionModel::Idle),
        ConnState::Active => match e {
            ConnEvent::Line(l) => match parse_result(l@) {
                Ok(m) => (
                    ConnState::Active,
                    ActionModel::ForwardThenAck(m, ack_line(m.commodity)),
                ),
                Err(err) => (ConnState::Active, ActionModel::Write(error_line(err))),
            },
            ConnEvent::InboundClosed => (ConnState::Closed, ActionModel::Idle),
            ConnEvent::Trade(c) => (ConnState::Active, ActionModel::Write(trade_line(c))),
            ConnEvent::Lagged(n) => (ConnState::Active, ActionModel::ReportLag(n)),
            ConnEvent::SubscriptionClosed => (ConnState::Closed, ActionModel::Idle),
        },
    }
}

/// Advance one connection by one event, exactly as `step_model` says.
pub fn conn_step(state: ConnState, event: ConnEvent) -> (r: (ConnState, ConnAction))
    ensures
        (r.0, action_model(r.1)) == step_model(state, event),
{
    match state {
        ConnState::Closed => (ConnState::Closed, ConnAction::Idle),
        ConnState::Active => match event {
            ConnEvent::Line(l) => match parse(l.as_slice()) {
                Ok(m) => (
                    ConnState::Active,
                    ConnAction::ForwardThenAck(m, format_ack(m.commodity)),
                ),
                Err(err) => (ConnState::Active, ConnAction::Write(format_error(err))),
            },
            ConnEvent::InboundClosed => (ConnState::Closed, ConnAction::Idle),
            ConnEvent::Trade(c) => (ConnState::Active, ConnAction::Write(format_trade(c))),
            ConnEvent::Lagged(n) => (ConnState::Active, ConnAction::ReportLag(n)),
            ConnEvent::SubscriptionClosed => (ConnState::Closed, ConnAction::Idle),
        },
    }
}

/// Fan-out: when a trade fires, every connection that is still active
/// receives exactly one trade line for that commodity and stays active,
/// whatever its history.
pub proof fn lemma_trade_fan_out(states: Seq<ConnState>, c: Commodity)
    requires
        forall|i: int| 0 <= i < states.len() ==> states[i] is Active,
    ensures
        forall|i: int|
            0 <= i < states.len() ==> step_model(states[i], ConnEvent::Trade(c)) == (
            ConnState::Active,
            ActionModel::Write(trade_line(c)),
            ),
{
}

/// A valid line is forwarded unchanged and acknowledged with its
/// commodity's acknowledgement line; the connection stays active.
pub proof fn lemma_valid_line_forwarded(l: Vec<u8>, m: Message)
    requires
        parse_result(l@) == Ok::<Message, ParseError>(m),
    ensures
        step_model(ConnState::Active, ConnEvent::Line(l)) == (
            ConnState::Active,
            ActionModel::ForwardThenAck(m, ack_line(m.commodity)),
        ),
{
}

/// Isolation: a malformed line is answered on its own connection and goes
/// no further. The step stays active, writes the error text, and forwards
/// nothing — so the engine's counters, and every other connection's
/// acknowledgements and trades, are untouched by it.
pub proof fn lemma_malformed_line_isolated(l: Vec<u8>, err: ParseError)
    requires
        parse_result(l@) == Err::<Message, ParseError>(err),
    ensures
        step_model(ConnState::Active, ConnEvent::Line(l)) == (
            ConnState::Active,
            ActionModel::Write(error_line(err)),
        ),
        !(step_model(ConnState::Active, ConnEvent::Line(l)).1 is ForwardThenAck),
{
}

/// Disconnection is local: the closing step writes and forwards nothing,
/// and every later event leaves the connection closed with no action. The
/// engine is not involved, so intents from other connections keep their
/// meaning after a disconnect.
pub proof fn lemma_disconnect_is_local(e: ConnEvent)
    ensures
        step_model(ConnState::Active, ConnEvent::InboundClosed) == (
            ConnState::Closed,
            ActionModel::Idle,
        ),
        step_model(ConnState::Closed, e) == (ConnState::Closed, ActionModel::Idle),
{
}

} // verus!
