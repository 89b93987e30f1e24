//! Coordination core of a distributed ice-cream shop.
//!
//! Screens drive a two-phase commit of each order with the payment gateway and
//! the order-management leader; a cluster of robots elects that leader (Bully
//! election), watches its members' liveness, and prepares orders under exclusive
//! leases on the flavor containers. Every role is a state machine that takes an
//! event and returns the messages to send: the transport, the timers and the
//! JSON encoding are left to the caller.
use vstd::prelude::*;

pub mod container;
pub mod coordinator;
pub mod flavor;
pub mod framing;
pub mod gateway;
pub mod messages;
pub mod order;
pub mod robot;
pub mod screen;

verus! {

} // verus!
