use vstd::prelude::*;

use crate::flavor::IceCreamFlavor;
use crate::order::Order;

verus! {

/// An IPv4 address and a port.
#[derive(Debug, Clone, Copy, PartialEq, Eq, Structural)]
pub struct Address {
    pub ip: u32,
    pub port: u16,
}

/// 127.0.0.1 as a 32-bit number.
pub const LOOPBACK: u32 = 0x7f00_0001;

/// Number of robots of the cluster.
pub const NUMBER_ROBOTS: usize = 5;

/// First port of the robots: robot `i` listens on `127.0.0.1:809i`.
pub const ROBOT_BASE_PORT: u16 = 8090;

/// Address of robot `robot_id`.
pub open spec fn robot_addr_spec(robot_id: usize) -> Address {
    Address { ip: LOOPBACK, port: (ROBOT_BASE_PORT + robot_id) as u16 }
}

/// Address of robot `robot_id`: `127.0.0.1:809<robot_id>`.
pub fn robot_address(robot_id: usize) -> (r: Address)
    requires
        robot_id < 10,
    ensures
        r == robot_addr_spec(robot_id),
{
    Address { ip: LOOPBACK, port: ROBOT_BASE_PORT + robot_id as u16 }
}

/// Robot id of the robot listening on `addr`, if it is a robot's address.
pub open spec fn robot_id_spec(addr: Address) -> Option<usize> {
    if addr.ip == LOOPBACK && ROBOT_BASE_PORT <= addr.port < ROBOT_BASE_PORT + 10 {
        Some((addr.port - ROBOT_BASE_PORT) as usize)
    } else {
        None
    }
}

/// Robot id of the robot listening on `addr`, if it is one of the cluster's.
pub fn robot_id_of(addr: Address) -> (r: Option<usize>)
    ensures
        r == robot_id_spec(addr),
        r matches Some(id) ==> robot_addr_spec(id) == addr,
{
    if addr.ip == LOOPBACK && ROBOT_BASE_PORT <= addr.port && addr.port < ROBOT_BASE_PORT + 10 {
        Some((addr.port - ROBOT_BASE_PORT) as usize)
    } else {
        None
    }
}

/// Messages that the leader sends to the robots.
#[derive(Debug)]
pub enum CoordinatorMessage {
    AccessAllowed { flavor: IceCreamFlavor },
    AccessDenied { reason: String },
    OrderReceived { robot_id: usize, order: Order, screen_addr: Address },
    OrderAborted { robot_id: usize, order: Order },
    ACK,
}

/// Messages that the robots send to the leader.
#[derive(Debug)]
pub enum RobotResponse {
    AccessRequest { robot_id: usize, flavors: Vec<(IceCreamFlavor, u32)>, addr: Address },
    ReleaseRequest { robot_id: usize, flavor: IceCreamFlavor, addr: Address },
    OrderFinished { robot_id: usize, order: Order },
    OrderInProcess { robot_id: usize, order: Order, addr: Address, screen_addr: Address },
    ReassignOrder { robot_id: usize },
    NoOrderInProcess { robot_id: usize, addr: Address },
}

/// Messages of the two-phase commit that reach the leader from a screen.
#[derive(Debug)]
pub enum ScreenMessage {
    OrderRequest { order: Order, screen_addr: Address },
    CommitReceived { order: Order },
    Abort { order: Order },
}

/// The verbs of a participant's reply to a screen: `<verb>\n<order-id>`.
#[derive(Debug, Clone, Copy, PartialEq, Eq, Structural)]
pub enum ScreenReply {
    Ready,
    Abort,
    Finished,
    Keepalive,
}

/// Messages of the Bully election.
#[derive(Debug, Clone, Copy, PartialEq, Eq, Structural)]
pub enum ElectionMessage {
    Election { robot_id: usize },
    NewCoordinator { robot_id: usize },
    /// The "ok" answer of a higher robot to an election.
    Answer { robot_id: usize },
}

/// Liveness messages between robots.
#[derive(Debug, Clone, Copy, PartialEq, Eq, Structural)]
pub enum PingMessage {
    Ping,
    Pong,
}

} // verus!
