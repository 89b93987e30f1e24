use vstd::prelude::*;

use std::collections::HashMap;

use crate::framing::{decode_reply, parse_reply_spec, split_frame, split_spec, tag_of_text, Tag};
use crate::messages::{Address, ScreenReply, LOOPBACK};

verus! {

/// Number of screens of the shop.
pub const SCREENS: usize = 3;

/// Slot of the order-management participant in a screen's responses.
pub const ORDER_MANAGEMENT: usize = 0;

/// Slot of the payment gateway in a screen's responses.
pub const PAYMENT_GATEWAY: usize = 1;

/// Number of participants of a transaction.
pub const STAKEHOLDERS: usize = 2;

/// Port of the payment gateway, on the loopback address.
pub const PAYMENT_GATEWAY_PORT: u16 = 8081;

/// Port of the order management before any election.
pub const ORDER_MANAGEMENT_PORT: u16 = 8090;

/// First port of the screens: screen `i` listens on `127.0.0.1:1234i`.
pub const SCREEN_BASE_PORT: u16 = 12340;

/// Milliseconds a screen waits for the participants' responses.
pub const RESPONSE_TIMEOUT_MS: u64 = 60000;

/// Milliseconds a screen waits for its neighbour's pong.
pub const TIMEOUT_PONG_MS: u64 = 60000;

/// Where an order stands at the screen, or what a participant answered.
#[derive(Debug, Clone, Copy, PartialEq, Eq, Structural)]
pub enum OrderState {
    /// Waiting, since the given time in milliseconds.
    Wait(u64),
    Finished,
    Abort,
    Ready,
}

/// What a screen knows of the neighbour it watches.
#[derive(Debug, Clone, Copy, PartialEq, Eq, Structural)]
pub enum ScreenState {
    /// Answered the last ping, reporting its last completed order.
    Active(Option<usize>),
    /// Did not answer the last ping yet.
    Down(Option<usize>),
    /// Has no more orders; it is no longer watched.
    Finished,
}

/// Messages between screens.
#[derive(Debug, Clone, Copy, PartialEq, Eq, Structural)]
pub enum ScreenMessage {
    Ping { screen_id: usize },
    Pong { screen_id: usize, last_order: Option<usize> },
    Finished { screen_id: usize },
}

/// What the responses gathered so far mean for the phase that waits for them.
#[derive(Debug, Clone, Copy, PartialEq, Eq, Structural)]
pub enum Decision {
    /// Keep waiting.
    Pending,
    /// Every participant gave the expected answer.
    Success,
    /// The phase failed.
    Failure,
    /// The order management asked to prepare again: its leader changed.
    Restart,
}

/// The phase of a screen's transaction for one order.
#[derive(Debug, Clone, Copy, PartialEq, Eq, Structural)]
pub enum Phase {
    Preparing,
    Committing,
    Aborting,
    Committed,
    Aborted,
}

/// What the screen must do next for a transaction.
#[derive(Debug, Clone, Copy, PartialEq, Eq, Structural)]
pub enum TxStep {
    /// Wait for more responses.
    Wait,
    /// Send `prepare` to both participants.
    SendPrepare,
    /// Send `commit` to both participants.
    SendCommit,
    /// Send `abort` to both participants.
    SendAbort,
    /// The transaction is over, committed or not.
    Done(bool),
    /// The abort is over: `true` when both participants confirmed it, `false`
    /// when one did not in time.
    Aborted(bool),
}

/// A screen's transaction for one order.
#[derive(Debug, Clone, Copy, PartialEq, Eq, Structural)]
pub struct Transaction {
    pub order_id: usize,
    pub phase: Phase,
    /// Both participants answered `ready` in the last prepare phase.
    pub prepared: bool,
    /// Both participants answered `finished`.
    pub finished: bool,
}

/// How a commit starts.
#[derive(Debug, Clone, Copy, PartialEq, Eq, Structural)]
pub enum CommitStart {
    /// The log already shows the order finished: nothing is sent.
    AlreadyCommitted,
    /// `commit` is to be sent to both participants.
    Broadcast,
}

/// What a round of pings to the watched screen found.
#[derive(Debug, Clone, Copy, PartialEq, Eq, Structural)]
pub enum PingOutcome {
    /// No answer yet.
    Waiting,
    /// The screen answered.
    Alive,
    /// The screen has finished; stop watching it.
    Stop,
}

/// What a frame received by a screen holds.
#[derive(Debug)]
pub enum ScreenInbound {
    /// A participant's reply for an order.
    Reply(ScreenReply, usize),
    /// The body of a `screen` frame: a message of another screen.
    FromScreen(Vec<u8>),
    /// Anything else.
    Unknown,
}

/// Address of the payment gateway.
pub open spec fn gateway_addr() -> Address {
    Address { ip: LOOPBACK, port: PAYMENT_GATEWAY_PORT }
}

/// The answer that a reply verb carries, received at time `now`.
pub open spec fn reply_state(reply: ScreenReply, now: u64) -> OrderState {
    match reply {
        ScreenReply::Ready => OrderState::Ready,
        ScreenReply::Abort => OrderState::Abort,
        ScreenReply::Finished => OrderState::Finished,
        ScreenReply::Keepalive => OrderState::Wait(now),
    }
}

/// What the responses mean for a phase that expects `expected` from both.
pub open spec fn decide(responses: Seq<Option<OrderState>>, expected: OrderState) -> Decision {
    let om = responses[ORDER_MANAGEMENT as int];
    let pg = responses[PAYMENT_GATEWAY as int];
    if expected == OrderState::Ready && (om == Some(OrderState::Abort) || pg == Some(
        OrderState::Abort,
    )) {
        Decision::Failure
    } else if om is None || pg is None {
        Decision::Pending
    } else if pg == Some(expected) {
        if om == Some(expected) {
            Decision::Success
        } else if expected != OrderState::Ready && om == Some(OrderState::Ready) {
            Decision::Restart
        } else {
            Decision::Pending
        }
    } else {
        Decision::Failure
    }
}

/// The next phase and step of a transaction in phase `phase` on `d`.
pub open spec fn advance_spec(phase: Phase, d: Decision) -> (Phase, TxStep) {
    match (phase, d) {
        (Phase::Preparing, Decision::Success) => (Phase::Committing, TxStep::SendCommit),
        (Phase::Preparing, Decision::Failure) => (Phase::Aborting, TxStep::SendAbort),
        (Phase::Committing, Decision::Success) => (Phase::Committed, TxStep::Done(true)),
        (Phase::Committing, Decision::Failure) => (Phase::Preparing, TxStep::SendPrepare),
        (Phase::Committing, Decision::Restart) => (Phase::Preparing, TxStep::SendPrepare),
        (Phase::Aborting, Decision::Pending) => (Phase::Aborting, TxStep::Wait),
        (Phase::Aborting, Decision::Success) => (Phase::Aborted, TxStep::Aborted(true)),
        (Phase::Aborting, _) => (Phase::Aborted, TxStep::Aborted(false)),
        (Phase::Committed, _) => (Phase::Committed, TxStep::Done(true)),
        (Phase::Aborted, _) => (Phase::Aborted, TxStep::Done(false)),
        (p, _) => (p, TxStep::Wait),
    }
}

/// The answer both participants give when a phase succeeds.
pub open spec fn expected_of(phase: Phase) -> OrderState {
    match phase {
        Phase::Preparing => OrderState::Ready,
        Phase::Committing => OrderState::Finished,
        _ => OrderState::Abort,
    }
}

impl Transaction {
    /// A commit is only reached through a successful prepare, and a committed
    /// transaction has had `finished` from both participants.
    pub open spec fn wf(&self) -> bool {
        &&& self.phase == Phase::Committing ==> self.prepared
        &&& self.phase == Phase::Committed ==> self.prepared && self.finished
        &&& self.finished ==> self.phase == Phase::Committed
    }

    /// A transaction for `order_id` that starts by preparing.
    pub fn new(order_id: usize) -> (r: Self)
        ensures
            r.wf(),
            r.order_id == order_id,
            r.phase == Phase::Preparing,
            !r.prepared,
            !r.finished,
    {
        Transaction { order_id, phase: Phase::Preparing, prepared: false, finished: false }
    }

    /// The answer this transaction's phase waits for.
    pub fn expected(&self) -> (r: OrderState)
        ensures
            r == expected_of(self.phase),
    {
        match self.phase {
            Phase::Preparing => OrderState::Ready,
            Phase::Committing => OrderState::Finished,
            _ => OrderState::Abort,
        }
    }

    /// Moves the transaction on after decision `d` on its phase's responses.
    pub fn advance(&mut self, d: Decision) -> (r: TxStep)
        requires
            old(self).wf(),
        ensures
            final(self).wf(),
            final(self).order_id == old(self).order_id,
            (final(self).phase, r) == advance_spec(old(self).phase, d),
            final(self).prepared == (if old(self).phase == Phase::Preparing {
                d == Decision::Success
            } else {
                old(self).prepared
            }),
            final(self).finished == (old(self).finished || (old(self).phase == Phase::Committing
                && d == Decision::Success)),
    {
        match (self.phase, d) {
            (Phase::Preparing, Decision::Success) => {
                self.prepared = true;
                self.phase = Phase::Committing;
                TxStep::SendCommit
            },
            (Phase::Preparing, Decision::Failure) => {
                self.prepared = false;
                self.phase = Phase::Aborting;
                TxStep::SendAbort
            },
            (Phase::Preparing, _) => {
                self.prepared = false;
                TxStep::Wait
            },
            (Phase::Committing, Decision::Success) => {
                self.finished = true;
                self.phase = Phase::Committed;
                TxStep::Done(true)
            },
            (Phase::Committing, Decision::Failure) => {
                self.phase = Phase::Preparing;
                TxStep::SendPrepare
            },
            (Phase::Committing, Decision::Restart) => {
                self.phase = Phase::Preparing;
                TxStep::SendPrepare
            },
            (Phase::Aborting, Decision::Pending) => TxStep::Wait,
            (Phase::Aborting, Decision::Success) => {
                self.phase = Phase::Aborted;
                TxStep::Aborted(true)
            },
            (Phase::Aborting, _) => {
                self.phase = Phase::Aborted;
                TxStep::Aborted(false)
            },
            (Phase::Committed, _) => TxStep::Done(true),
            (Phase::Aborted, _) => TxStep::Done(false),
            (_, _) => TxStep::Wait,
        }
    }
}

/// A screen: it drives the two-phase commit of its orders and watches the
/// neighbour screen of the ring.
pub struct Screen {
    pub id: usize,
    /// Where each order stands.
    pub log: HashMap<usize, OrderState>,
    /// The participants' answers in the current phase, by slot.
    pub responses: Vec<Option<OrderState>>,
    /// Current address of the order management.
    pub order_management_addr: Address,
    /// What this screen knows of the screen it watches.
    pub screen_in_charge_state: Option<ScreenState>,
    pub last_order_completed: Option<usize>,
    /// The screen this one watches.
    pub screen_in_charge: usize,
    /// The screen that watches this one.
    pub ping_screen: usize,
    pub is_finished: bool,
}

/// Address of the payment gateway: `127.0.0.1:8081`.
pub fn gateway_address() -> (r: Address)
    ensures
        r == gateway_addr(),
{
    Address { ip: LOOPBACK, port: PAYMENT_GATEWAY_PORT }
}

/// Address of screen `id`: `127.0.0.1:1234<id>`.
pub open spec fn screen_addr_spec(id: usize) -> Address {
    Address { ip: LOOPBACK, port: (SCREEN_BASE_PORT + id) as u16 }
}

/// Address of screen `id`.
pub fn id_to_addr(id: usize) -> (r: Address)
    requires
        id < 10,
    ensures
        r == screen_addr_spec(id),
{
    Address { ip: LOOPBACK, port: SCREEN_BASE_PORT + id as u16 }
}

/// The orders of `ids` (by position) that a screen takes over from a neighbour
/// that went down after completing `last`: those with a greater id, or all of
/// them when it completed none.
pub open spec fn takes_over(id: usize, last: Option<usize>) -> bool {
    match last {
        Some(l) => id > l,
        None => true,
    }
}

/// The ids among `ids` that a screen takes over from a neighbour that went down
/// after completing `last`, in their order. A neighbour that reported no
/// completed order has completed none, so every one of its orders is taken over.
pub fn orders_to_take_over(ids: &Vec<usize>, last: Option<usize>) -> (r: Vec<usize>)
    ensures
        r@ == ids@.filter(|id: usize| takes_over(id, last)),
{
    let mut r: Vec<usize> = Vec::new();
    let mut i: usize = 0;
    while i < ids.len()
        invariant
            0 <= i <= ids@.len(),
            r@ == ids@.take(i as int).filter(|id: usize| takes_over(id, last)),
        decreases ids.len() - i,
    {
        assert(ids@.take(i as int + 1).drop_last() =~= ids@.take(i as int));
        reveal(Seq::filter);
        let keep = match last {
            Some(l) => ids[i] > l,
            None => true,
        };
        if keep {
            r.push(ids[i]);
        }
        i = i + 1;
    }
    assert(ids@.take(ids@.len() as int) =~= ids@);
    r
}

impl Screen {
    /// A screen has one slot per participant.
    pub open spec fn wf(&self) -> bool {
        self.responses@.len() == STAKEHOLDERS
    }

    /// Screen `id` of the ring: it watches screen `id - 1` and is watched by
    /// screen `id + 1`, both modulo `SCREENS`.
    pub fn new(id: usize) -> (r: Screen)
        requires
            id < SCREENS,
        ensures
            r.wf(),
            r.id == id,
            r.log@.is_empty(),
            r.responses@ == seq![None::<OrderState>, None],
            r.order_management_addr == (Address { ip: LOOPBACK, port: ORDER_MANAGEMENT_PORT }),
            r.screen_in_charge_state is None,
            r.last_order_completed is None,
            r.screen_in_charge == (id + SCREENS - 1) % (SCREENS as int),
            r.ping_screen == (id + 1) % (SCREENS as int),
            !r.is_finished,
    {
        let screen_in_charge: usize = if id == 0 {
            SCREENS - 1
        } else {
            id - 1
        };
        let ping_screen: usize = if id == SCREENS - 1 {
            0
        } else {
            id + 1
        };
        let responses: Vec<Option<OrderState>> = vec![None, None];
        assert(responses@ =~= seq![None::<OrderState>, None]);
        Screen {
            id,
            log: HashMap::new(),
            responses,
            order_management_addr: Address { ip: LOOPBACK, port: ORDER_MANAGEMENT_PORT },
            screen_in_charge_state: None,
            last_order_completed: None,
            screen_in_charge,
            ping_screen,
            is_finished: false,
        }
    }

    /// Returns the id of the screen.
    pub fn id(&self) -> (r: usize)
        ensures
            r == self.id,
    {
        self.id
    }

    /// Returns true if the screen has finished processing the orders.
    pub fn is_finished(&self) -> (r: bool)
        ensures
            r == self.is_finished,
    {
        self.is_finished
    }

    /// Empties both response slots for a new phase.
    fn reset_responses(&mut self)
        requires
            old(self).wf(),
        ensures
            final(self).wf(),
            final(self).responses@ == seq![None::<OrderState>, None],
            final(self).log@ == old(self).log@,
            final(self).order_management_addr == old(self).order_management_addr,
            final(self).last_order_completed == old(self).last_order_completed,
    {
        self.responses = vec![None, None];
        assert(self.responses@ =~= seq![None::<OrderState>, None]);
    }

    /// Records the reply `reply` for order `order_id` from `from`, received at
    /// `now`. A reply from the payment gateway fills its slot; any other sender is
    /// the order management, whose recorded address follows the sender, so that
    /// the leader can move between robots.
    pub fn handle_message(&mut self, reply: ScreenReply, from: Address, order_id: usize, now: u64)
        requires
            old(self).wf(),
        ensures
            final(self).wf(),
            from == gateway_addr() ==> {
                &&& final(self).responses@ == old(self).responses@.update(
                    PAYMENT_GATEWAY as int,
                    Some(reply_state(reply, now)),
                )
                &&& final(self).order_management_addr == old(self).order_management_addr
            },
            from != gateway_addr() ==> {
                &&& final(self).responses@ == old(self).responses@.update(
                    ORDER_MANAGEMENT as int,
                    Some(reply_state(reply, now)),
                )
                &&& final(self).order_management_addr == from
            },
            final(self).log@ == old(self).log@,
            final(self).last_order_completed == old(self).last_order_completed,
    {
        let state = match reply {
            ScreenReply::Ready => OrderState::Ready,
            ScreenReply::Abort => OrderState::Abort,
            ScreenReply::Finished => OrderState::Finished,
            ScreenReply::Keepalive => OrderState::Wait(now),
        };
        if from.ip == LOOPBACK && from.port == PAYMENT_GATEWAY_PORT {
            self.responses[PAYMENT_GATEWAY] = Some(state);
        } else {
            if from != self.order_management_addr {
                self.order_management_addr = from;
            }
            self.responses[ORDER_MANAGEMENT] = Some(state);
        }
    }

    /// Decides what the responses mean for a phase that expects `expected` from
    /// both participants; a successful commit of `order_id` becomes the last
    /// completed order.
    pub fn check_responses(&mut self, expected: OrderState, order_id: usize) -> (r: Decision)
        requires
            old(self).wf(),
        ensures
            final(self).wf(),
            r == decide(old(self).responses@, expected),
            r == Decision::Success ==> old(self).responses@[ORDER_MANAGEMENT as int] == Some(expected)
                && old(self).responses@[PAYMENT_GATEWAY as int] == Some(expected),
            final(self).last_order_completed == if r == Decision::Success && expected
                == OrderState::Finished {
                Some(order_id)
            } else {
                old(self).last_order_completed
            },
            final(self).responses@ == old(self).responses@,
            final(self).log@ == old(self).log@,
            final(self).order_management_addr == old(self).order_management_addr,
    {
        let om = self.responses[ORDER_MANAGEMENT];
        let pg = self.responses[PAYMENT_GATEWAY];
        if expected == OrderState::Ready && (om == Some(OrderState::Abort) || pg == Some(
            OrderState::Abort,
        )) {
            return Decision::Failure;
        }
        if om.is_none() || pg.is_none() {
            return Decision::Pending;
        }
        if pg == Some(expected) {
            if om == Some(expected) {
                if expected == OrderState::Finished {
                    self.last_order_completed = Some(order_id);
                }
                Decision::Success
            } else if expected != OrderState::Ready && om == Some(OrderState::Ready) {
                Decision::Restart
            } else {
                Decision::Pending
            }
        } else {
            Decision::Failure
        }
    }

    /// Starts the prepare phase of `order_id` at `now`: the order waits, and both
    /// slots are emptied; `prepare` is then sent to both participants.
    pub fn prepare(&mut self, order_id: usize, now: u64)
        requires
            old(self).wf(),
        ensures
            final(self).wf(),
            final(self).log@ == old(self).log@.insert(order_id, OrderState::Wait(now)),
            final(self).responses@ == seq![None::<OrderState>, None],
            final(self).order_management_addr == old(self).order_management_addr,
    {
        self.log.insert(order_id, OrderState::Wait(now));
        self.reset_responses();
    }

    /// Records that both participants are ready for `order_id`.
    pub fn mark_ready(&mut self, order_id: usize)
        requires
            old(self).wf(),
        ensures
            final(self).wf(),
            final(self).log@ == old(self).log@.insert(order_id, OrderState::Ready),
            final(self).responses@ == old(self).responses@,
            final(self).last_order_completed == old(self).last_order_completed,
    {
        self.log.insert(order_id, OrderState::Ready);
    }

    /// Starts the commit phase of `order_id`. When the log already shows the
    /// order finished nothing changes and nothing is to be sent; otherwise the
    /// order is logged finished, both slots are emptied, and `commit` is to be
    /// sent to both participants.
    pub fn commit(&mut self, order_id: usize) -> (r: CommitStart)
        requires
            old(self).wf(),
        ensures
            final(self).wf(),
            old(self).log@.contains_key(order_id) && old(self).log@[order_id] == OrderState::Finished
                ==> {
                &&& r == CommitStart::AlreadyCommitted
                &&& final(self).log@ == old(self).log@
                &&& final(self).responses@ == old(self).responses@
                &&& final(self).order_management_addr == old(self).order_management_addr
                &&& final(self).last_order_completed == old(self).last_order_completed
            },
            !(old(self).log@.contains_key(order_id) && old(self).log@[order_id]
                == OrderState::Finished) ==> {
                &&& r == CommitStart::Broadcast
                &&& final(self).log@ == old(self).log@.insert(order_id, OrderState::Finished)
                &&& final(self).responses@ == seq![None::<OrderState>, None]
                &&& final(self).order_management_addr == old(self).order_management_addr
            },
    {
        match self.log.get(&order_id) {
            Some(state) => {
                if *state == OrderState::Finished {
                    return CommitStart::AlreadyCommitted;
                }
            },
            None => {},
        }
        self.log.insert(order_id, OrderState::Finished);
        self.reset_responses();
        CommitStart::Broadcast
    }

    /// Starts the abort of `order_id`: the order is logged aborted and both slots
    /// are emptied; `abort` is then sent to both participants.
    pub fn abort(&mut self, order_id: usize)
        requires
            old(self).wf(),
        ensures
            final(self).wf(),
            final(self).log@ == old(self).log@.insert(order_id, OrderState::Abort),
            final(self).log@[order_id] == OrderState::Abort,
            final(self).responses@ == seq![None::<OrderState>, None],
            final(self).order_management_addr == old(self).order_management_addr,
    {
        self.log.insert(order_id, OrderState::Abort);
        self.reset_responses();
    }

    /// Starts a round of pings to the watched screen: an active neighbour is
    /// presumed down until it answers. Returns whether to send the ping: not once
    /// the neighbour has finished.
    pub fn broadcast_pings(&mut self) -> (r: bool)
        ensures
            r == !(old(self).screen_in_charge_state == Some(ScreenState::Finished)),
            final(self).screen_in_charge_state == match old(self).screen_in_charge_state {
                Some(ScreenState::Active(l)) => Some(ScreenState::Down(l)),
                other => other,
            },
            final(self).responses@ == old(self).responses@,
            final(self).log@ == old(self).log@,
            final(self).id == old(self).id,
            final(self).screen_in_charge == old(self).screen_in_charge,
            final(self).ping_screen == old(self).ping_screen,
            final(self).last_order_completed == old(self).last_order_completed,
    {
        match self.screen_in_charge_state {
            Some(ScreenState::Active(last_order)) => {
                self.screen_in_charge_state = Some(ScreenState::Down(last_order));
                true
            },
            Some(ScreenState::Finished) => false,
            _ => true,
        }
    }

    /// What the current round of pings found so far.
    pub fn ping_outcome(&self) -> (r: PingOutcome)
        ensures
            r == match self.screen_in_charge_state {
                Some(ScreenState::Active(_)) => PingOutcome::Alive,
                Some(ScreenState::Finished) => PingOutcome::Stop,
                _ => PingOutcome::Waiting,
            },
    {
        match self.screen_in_charge_state {
            Some(ScreenState::Active(_)) => PingOutcome::Alive,
            Some(ScreenState::Finished) => PingOutcome::Stop,
            _ => PingOutcome::Waiting,
        }
    }

    /// Records a pong of the watched screen, with its last completed order.
    pub fn process_pong(&mut self, screen_id: usize, last_order: Option<usize>)
        ensures
            final(self).screen_in_charge_state == Some(ScreenState::Active(last_order)),
            final(self).responses@ == old(self).responses@,
            final(self).id == old(self).id,
            final(self).last_order_completed == old(self).last_order_completed,
            final(self).log@ == old(self).log@,
    {
        self.screen_in_charge_state = Some(ScreenState::Active(last_order));
    }

    /// The pong that answers a ping: this screen's id and last completed order.
    pub fn process_ping(&self, screen_id: usize) -> (r: ScreenMessage)
        ensures
            r == (ScreenMessage::Pong {
                screen_id: self.id,
                last_order: self.last_order_completed,
            }),
    {
        ScreenMessage::Pong { screen_id: self.id, last_order: self.last_order_completed }
    }

    /// Records that the watched screen has no more orders.
    pub fn process_finished_message(&mut self)
        ensures
            final(self).screen_in_charge_state == Some(ScreenState::Finished),
            final(self).responses@ == old(self).responses@,
            final(self).id == old(self).id,
            final(self).last_order_completed == old(self).last_order_completed,
            final(self).log@ == old(self).log@,
    {
        self.screen_in_charge_state = Some(ScreenState::Finished);
    }

    /// When the watched screen is down, the last order it reported completed
    /// (`Some(None)` when it reported none): its later orders are this screen's
    /// to process.
    pub fn takeover_from_down_screen(&self) -> (r: Option<Option<usize>>)
        ensures
            r == match self.screen_in_charge_state {
                Some(ScreenState::Down(last)) => Some(last),
                _ => None,
            },
    {
        match self.screen_in_charge_state {
            Some(ScreenState::Down(last)) => Some(last),
            _ => None,
        }
    }

    /// Handles a message from another screen; returns the message to send back
    /// and the screen to send it to, if any.
    pub fn handle(&mut self, msg: ScreenMessage) -> (r: Option<(usize, ScreenMessage)>)
        ensures
            match msg {
                ScreenMessage::Ping { screen_id } => r == Some(
                    (
                        screen_id,
                        ScreenMessage::Pong {
                            screen_id: old(self).id,
                            last_order: old(self).last_order_completed,
                        },
                    ),
                ) && final(self).screen_in_charge_state == old(self).screen_in_charge_state,
                ScreenMessage::Pong { last_order, .. } => r is None
                    && final(self).screen_in_charge_state == Some(ScreenState::Active(last_order)),
                ScreenMessage::Finished { .. } => r is None
                    && final(self).screen_in_charge_state == Some(ScreenState::Finished),
            },
            final(self).responses@ == old(self).responses@,
            final(self).log@ == old(self).log@,
            final(self).id == old(self).id,
    {
        match msg {
            ScreenMessage::Ping { screen_id } => {
                let response = self.process_ping(screen_id);
                Some((screen_id, response))
            },
            ScreenMessage::Pong { screen_id, last_order } => {
                self.process_pong(screen_id, last_order);
                None
            },
            ScreenMessage::Finished { .. } => {
                self.process_finished_message();
                None
            },
        }
    }

    /// Sorts a received frame: a reply line, a message of another screen, or
    /// something else.
    pub fn classify(msg: &[u8]) -> (r: ScreenInbound)
        ensures
            match r {
                ScreenInbound::Reply(reply, id) => parse_reply_spec(msg@) == Some((reply, id)),
                ScreenInbound::FromScreen(body) => parse_reply_spec(msg@) is None && match split_spec(
                    msg@,
                ) {
                    Some((t, b)) => tag_of_text(t) == Some(Tag::Screen) && b == body@,
                    None => false,
                },
                ScreenInbound::Unknown => parse_reply_spec(msg@) is None && !(match split_spec(
                    msg@,
                ) {
                    Some((t, b)) => tag_of_text(t) == Some(Tag::Screen),
                    None => false,
                }),
            },
    {
        if let Some((reply, id)) = decode_reply(msg) {
            return ScreenInbound::Reply(reply, id);
        }
        match split_frame(msg) {
            Some((tag, body)) => match crate::framing::parse_tag(tag.as_slice()) {
                Some(Tag::Screen) => ScreenInbound::FromScreen(body),
                _ => ScreenInbound::Unknown,
            },
            None => ScreenInbound::Unknown,
        }
    }

    /// Starts the step `step` of transaction `tx` at `now`; returns the tag of
    /// the frame to send to both participants, or `None` when nothing is sent.
    /// A commit of an order that the log already shows finished sends nothing.
    pub fn start_step(&mut self, tx: &Transaction, step: TxStep, now: u64) -> (r: Option<Tag>)
        requires
            old(self).wf(),
        ensures
            final(self).wf(),
            step == TxStep::SendPrepare ==> r == Some(Tag::Prepare) && final(self).log@ == old(
                self,
            ).log@.insert(tx.order_id, OrderState::Wait(now)),
            step == TxStep::SendAbort ==> r == Some(Tag::Abort) && final(self).log@[tx.order_id]
                == OrderState::Abort,
            step == TxStep::SendCommit ==> (r is None <==> (old(self).log@.contains_key(tx.order_id)
                && old(self).log@[tx.order_id] == OrderState::Finished)),
            step == TxStep::SendCommit && r is None ==> final(self).log@ == old(self).log@,
            step == TxStep::SendCommit && r is Some ==> r == Some(Tag::Commit) && final(self).log@
                == old(self).log@.insert(tx.order_id, OrderState::Finished),
            r is Some ==> final(self).responses@ == seq![None::<OrderState>, None],
            r is None ==> final(self).responses@ == old(self).responses@,
            final(self).order_management_addr == old(self).order_management_addr,
            (step is Wait || step is Done) ==> r is None && final(self).log@ == old(self).log@,
    {
        match step {
            TxStep::SendPrepare => {
                self.prepare(tx.order_id, now);
                Some(Tag::Prepare)
            },
            TxStep::SendCommit => {
                match self.commit(tx.order_id) {
                    CommitStart::AlreadyCommitted => None,
                    CommitStart::Broadcast => Some(Tag::Commit),
                }
            },
            TxStep::SendAbort => {
                self.abort(tx.order_id);
                Some(Tag::Abort)
            },
            _ => None,
        }
    }

    /// One look at the responses for transaction `tx`, whose phase began at
    /// `started`: past `RESPONSE_TIMEOUT_MS` the phase has failed; otherwise the
    /// responses decide. The transaction moves on accordingly.
    pub fn wait_outcome(&mut self, tx: &mut Transaction, started: u64, now: u64) -> (r: TxStep)
        requires
            old(self).wf(),
            old(tx).wf(),
        ensures
            final(self).wf(),
            final(tx).wf(),
            final(tx).order_id == old(tx).order_id,
            now > started && now - started > RESPONSE_TIMEOUT_MS ==> (final(tx).phase, r)
                == advance_spec(old(tx).phase, Decision::Failure),
            !(now > started && now - started > RESPONSE_TIMEOUT_MS) ==> (final(tx).phase, r)
                == advance_spec(
                old(tx).phase,
                decide(old(self).responses@, expected_of(old(tx).phase)),
            ),
            final(self).last_order_completed == if r == TxStep::Done(true) && old(tx).phase
                == Phase::Committing {
                Some(old(tx).order_id)
            } else {
                old(self).last_order_completed
            },
            final(self).log@ == if final(tx).phase == Phase::Committing && old(tx).phase
                == Phase::Preparing {
                old(self).log@.insert(old(tx).order_id, OrderState::Ready)
            } else {
                old(self).log@
            },
    {
        if now > started && now - started > RESPONSE_TIMEOUT_MS {
            return tx.advance(Decision::Failure);
        }
        let expected = tx.expected();
        let d = self.check_responses(expected, tx.order_id);
        if tx.phase == Phase::Preparing && d == Decision::Success {
            self.mark_ready(tx.order_id);
        }
        tx.advance(d)
    }
}

/// A phase succeeds only when both participants gave the answer it expects:
/// `ready` from both before a commit, `finished` from both before an order is
/// reported committed.
pub proof fn lemma_success_needs_both(responses: Seq<Option<OrderState>>, expected: OrderState)
    requires
        responses.len() == STAKEHOLDERS,
    ensures
        decide(responses, expected) == Decision::Success ==> responses[ORDER_MANAGEMENT as int]
            == Some(expected) && responses[PAYMENT_GATEWAY as int] == Some(expected),
        expected == OrderState::Ready && (responses[ORDER_MANAGEMENT as int] == Some(
            OrderState::Abort,
        ) || responses[PAYMENT_GATEWAY as int] == Some(OrderState::Abort)) ==> decide(
            responses,
            expected,
        ) == Decision::Failure,
{
}

/// A transaction is reported committed only from the commit phase, which it
/// enters only after a successful prepare.
pub proof fn lemma_committed_after_prepare_and_commit(t: Transaction, d: Decision)
    requires
        t.wf(),
    ensures
        advance_spec(t.phase, d).1 == TxStep::Done(true) ==> (t.phase == Phase::Committed || (
        t.phase == Phase::Committing && d == Decision::Success)),
        advance_spec(t.phase, d).0 == Phase::Committing && t.phase != Phase::Committing ==> (
        t.phase == Phase::Preparing && d == Decision::Success),
{
}

} // verus!
