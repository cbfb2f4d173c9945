//! Plain-value models of the AMQP 1.0 performatives the session reads and
//! writes, together with the message and outbound-frame values the engine
//! exchanges with its collaborators.  Only the fields the session layer
//! interprets are modelled; wire encoding belongs to the connection.

use vstd::prelude::*;

verus! {

/// Role of a link endpoint.
#[derive(Clone, Copy, Debug, PartialEq, Eq, Structural)]
pub enum Role {
    Sender,
    Receiver,
}

/// Sender settlement mode negotiated on Attach.
#[derive(Clone, Copy, Debug, PartialEq, Eq, Structural)]
pub enum SenderSettleMode {
    Unsettled,
    Settled,
    Mixed,
}

/// Receiver settlement mode negotiated on Attach.
#[derive(Clone, Copy, Debug, PartialEq, Eq, Structural)]
pub enum ReceiverSettleMode {
    First,
    Second,
}

/// Durability of a terminus.
#[derive(Clone, Copy, Debug, PartialEq, Eq, Structural)]
pub enum TerminusDurability {
    NotDurable,
    Configuration,
    UnsettledState,
}

/// Expiry policy of a terminus.
#[derive(Clone, Copy, Debug, PartialEq, Eq, Structural)]
pub enum TerminusExpiryPolicy {
    LinkDetach,
    SessionEnd,
    ConnectionClose,
    Never,
}

/// Target terminus carried by an outgoing Attach.
#[derive(Debug)]
pub struct Target {
    pub address: Option<String>,
    pub durability: TerminusDurability,
    pub expiry_policy: TerminusExpiryPolicy,
    pub timeout: u32,
    pub dynamic: bool,
}

/// Attach performative: negotiates creation of a link.
#[derive(Debug)]
pub struct Attach {
    pub name: String,
    pub handle: u32,
    pub role: Role,
    pub snd_settle_mode: SenderSettleMode,
    pub rcv_settle_mode: ReceiverSettleMode,
    pub target: Option<Target>,
}

/// Flow performative: communicates updated credit windows.
#[derive(Clone, Copy, Debug)]
pub struct Flow {
    pub next_incoming_id: Option<u32>,
    pub incoming_window: u32,
    pub next_outgoing_id: u32,
    pub outgoing_window: u32,
    pub handle: Option<u32>,
    pub delivery_count: Option<u32>,
    pub link_credit: Option<u32>,
    pub available: Option<u32>,
    pub drain: bool,
    pub echo: bool,
}

/// Transfer performative: carries one message delivery.
#[derive(Debug)]
pub struct Transfer {
    pub handle: u32,
    pub delivery_id: Option<u32>,
    pub delivery_tag: Option<Vec<u8>>,
    pub message_format: Option<u32>,
    pub settled: Option<bool>,
    pub more: bool,
    pub resume: bool,
    pub aborted: bool,
    pub batchable: bool,
}

/// Delivery state carried by a Disposition.
#[derive(Clone, Copy, Debug, PartialEq, Eq, Structural)]
pub enum DeliveryState {
    Received,
    Accepted,
    Rejected,
    Released,
    Modified,
}

/// Terminal outcome with which a settlement promise is fulfilled.
#[derive(Clone, Copy, Debug, PartialEq, Eq, Structural)]
pub enum Outcome {
    Accepted,
    Rejected,
    Released,
    Modified,
}

/// Disposition performative: communicates settlement for an inclusive range
/// of delivery identifiers.
#[derive(Clone, Copy, Debug)]
pub struct Disposition {
    pub settled: bool,
    pub first: u32,
    pub last: Option<u32>,
    pub state: Option<DeliveryState>,
}

/// Detach performative: initiates link teardown.  The session does not yet
/// act on it; it is modelled so the dispatcher can name it.
#[derive(Clone, Copy, Debug)]
pub struct Detach {
    pub handle: u32,
    pub closed: bool,
}

/// A performative as routed to or from this session's channel.  `Other`
/// stands for any performative the session layer does not interpret.
#[derive(Debug)]
pub enum Frame {
    Attach(Attach),
    Flow(Flow),
    Transfer(Transfer),
    Disposition(Disposition),
    Detach(Detach),
    Other,
}

/// A frame ready for the connection collaborator: the performative stamped
/// with the remote channel identifier, plus its payload bytes.
#[derive(Debug)]
pub struct OutFrame {
    pub channel: u16,
    pub frame: Frame,
    pub payload: Vec<u8>,
}

/// A message to transfer: its format tag and the exact bytes its serializer
/// produced for the Transfer frame's payload.  Serialization itself is the
/// message collaborator's work; the session only forwards the bytes.
#[derive(Debug)]
pub struct Message {
    pub message_format: Option<u32>,
    pub body: Vec<u8>,
}

impl Message {
    /// The byte payload to place in a Transfer frame.
    pub fn serialize(self) -> (r: Vec<u8>)
        ensures
            r@ == self.body@,
    {
        self.body
    }
}

/// The inclusive upper bound of a disposition's delivery-id range: `last`
/// where present, else `first`.
pub open spec fn disposition_last(d: Disposition) -> u32 {
    match d.last {
        Option::Some(l) => l,
        Option::None => d.first,
    }
}

/// The outcome a settled disposition's state maps to: absence of an explicit
/// state defaults to Accepted.  `Received` is not terminal and never maps.
pub open spec fn outcome_of(state: Option<DeliveryState>) -> Outcome {
    match state {
        Option::Some(DeliveryState::Rejected) => Outcome::Rejected,
        Option::Some(DeliveryState::Released) => Outcome::Released,
        Option::Some(DeliveryState::Modified) => Outcome::Modified,
        _ => Outcome::Accepted,
    }
}

} // verus!
