use vstd::prelude::*;

use crate::flavor::{all_flavors, IceCreamFlavor};
use crate::framing::Tag;
use crate::messages::{
    robot_addr_spec, robot_id_of, robot_id_spec, Address, CoordinatorMessage, ElectionMessage, PingMessage,
    RobotResponse, NUMBER_ROBOTS,
};
use crate::order::{amounts_spec, order_fits, time_total, uses_flavor, Order, OrderView};

verus! {

/// Milliseconds a robot waits after a denial before asking again.
pub const BACKOFF_MS: u64 = 2000;

/// Milliseconds without a reply after which a pending access request is sent again.
pub const RETRY_INTERVAL_MS: u64 = 5000;

/// Milliseconds without a pong after which the leader declares a peer dead.
pub const PEER_DEAD_MS: u64 = 10000;

/// Unanswered pings after which the leader declares a peer dead.
pub const MAX_PING_ATTEMPTS: usize = 10;

/// Milliseconds without a pong after which a follower declares the leader dead.
pub const LEADER_DEAD_MS: u64 = 5000;

/// Unanswered pings after which a follower declares the leader dead.
pub const MAX_LEADER_PING_ATTEMPTS: usize = 20;

/// What a robot is doing.
#[derive(Debug)]
pub enum RobotState {
    Idle,
    /// Waiting for the leader to grant one of the remaining flavors.
    WaitingForAccess(Order, Vec<(IceCreamFlavor, u32)>),
    ProcessingOrder(Order),
    /// Preparing with the container of the flavor; the remaining flavors include it.
    UsingContainer(Order, Vec<(IceCreamFlavor, u32)>, IceCreamFlavor),
}

/// Where a robot stands in the Bully election.
#[derive(Debug, Clone, Copy, PartialEq, Eq, Structural)]
pub enum ElectionState {
    StartingElection,
    Candidate,
    Follower,
    /// No election is running.
    Settled,
}

/// Liveness of one peer, as a robot sees it.
#[derive(Debug, Clone, Copy, PartialEq, Eq, Structural)]
pub struct PeerStatus {
    /// Time of the last pong, in milliseconds.
    pub last_pong: Option<u64>,
    pub ping_attempts: usize,
}

/// What a robot asks of its transport and timers.
#[derive(Debug)]
pub enum RobotAction {
    /// `access\n<json>` to the current leader.
    ToCoordinator(RobotResponse),
    /// A message for the leader component that runs in this very process.
    ToLocalCoordinator(RobotResponse),
    /// `election\n<json>` to robot `to`.
    Election { to: usize, message: ElectionMessage },
    /// `ping\n<json>` to robot `to`.
    SendPing { to: usize },
    /// `ping\n<json of Pong>` to `addr`.
    SendPong { addr: Address },
    /// Wait this long before the next action.
    Sleep { millis: u64 },
    /// Prepare for this long on a worker, then report `finish_preparation(flavor)`.
    Prepare { millis: u64, flavor: IceCreamFlavor },
    /// Start a leader component in this process.
    StartCoordinator,
}

/// Where a frame received by a robot goes, by its tag.
#[derive(Debug, Clone, Copy, PartialEq, Eq, Structural)]
pub enum Route {
    /// A `PingMessage`, for `handle_ping_message`.
    Ping,
    /// An `ElectionMessage`, for `handle_election_message`.
    Election,
    /// A screen's `prepare`, for the leader component.
    Prepare,
    /// A screen's `commit`, for the leader component.
    Commit,
    /// A screen's `abort`, for the leader component.
    Abort,
    /// A `RobotResponse`, for the leader component.
    Access,
    /// A `CoordinatorMessage`, for `handle_as_robot`.
    Robot,
    /// Nothing to do.
    Ignore,
}

/// Whether a frame routed to `route` counts as a sign of life from its sender:
/// every frame for the leader component, and every word of the leader to a
/// follower. Liveness and election frames are handled on their own.
pub fn refreshes_liveness(route: Route) -> (r: bool)
    ensures
        r == (route == Route::Prepare || route == Route::Commit || route == Route::Abort || route
            == Route::Access || route == Route::Robot),
{
    match route {
        Route::Prepare | Route::Commit | Route::Abort | Route::Access | Route::Robot => true,
        _ => false,
    }
}

/// Where a frame with tag `tag` goes, for a robot that is (or not) the leader.
pub open spec fn route_spec(tag: Tag, is_coordinator: bool) -> Route {
    match tag {
        Tag::Ping => Route::Ping,
        Tag::Election => Route::Election,
        _ => if is_coordinator {
            match tag {
                Tag::Prepare => Route::Prepare,
                Tag::Commit => Route::Commit,
                Tag::Abort => Route::Abort,
                Tag::Access => Route::Access,
                _ => Route::Ignore,
            }
        } else {
            Route::Robot
        },
    }
}

/// A robot of the cluster.
pub struct Robot {
    pub robot_id: usize,
    pub local_addr: Address,
    pub coordinator_id: usize,
    pub state: RobotState,
    pub order_screen_addr: Option<Address>,
    pub is_coordinator: bool,
    /// The other robots, by id, each once.
    pub peers: Vec<(usize, PeerStatus)>,
    pub election_state: ElectionState,
    /// When the pending access request was last sent, in milliseconds.
    pub last_request_time: Option<u64>,
}

/// The order a robot state is working on.
pub open spec fn state_order(s: RobotState) -> Option<Order> {
    match s {
        RobotState::Idle => None,
        RobotState::WaitingForAccess(o, _) => Some(o),
        RobotState::ProcessingOrder(o) => Some(o),
        RobotState::UsingContainer(o, _, _) => Some(o),
    }
}

/// Whether the response is one of the two messages by which a robot tells a new
/// leader what it is doing.
pub open spec fn is_readvertisement(a: RobotAction) -> bool {
    match a {
        RobotAction::ToCoordinator(RobotResponse::OrderInProcess { .. }) => true,
        RobotAction::ToCoordinator(RobotResponse::NoOrderInProcess { .. }) => true,
        RobotAction::ToLocalCoordinator(RobotResponse::OrderInProcess { .. }) => true,
        RobotAction::ToLocalCoordinator(RobotResponse::NoOrderInProcess { .. }) => true,
        _ => false,
    }
}

/// The flavors a robot state still needs.
pub open spec fn remaining(s: RobotState) -> Seq<(IceCreamFlavor, u32)> {
    match s {
        RobotState::WaitingForAccess(_, f) => f@,
        RobotState::UsingContainer(_, f, _) => f@,
        _ => Seq::empty(),
    }
}

/// Whether `a` is an access request of `robot_id` for `flavors`, answered at `addr`.
pub open spec fn is_request_for(
    a: RobotAction,
    robot_id: usize,
    flavors: Seq<(IceCreamFlavor, u32)>,
    addr: Address,
) -> bool {
    match a {
        RobotAction::ToCoordinator(RobotResponse::AccessRequest { robot_id: r, flavors: f, addr: d }) => r
            == robot_id && f@ == flavors && d == addr,
        _ => false,
    }
}

/// Whether `a` tells the leader, locally when `local`, that robot `robot_id`
/// (at `addr`) works on an order whose value is `o`, for the screen at `screen`.
pub open spec fn announces_order(
    a: RobotAction,
    robot_id: usize,
    addr: Address,
    local: bool,
    o: OrderView,
    screen: Address,
) -> bool {
    let req = match a {
        RobotAction::ToCoordinator(q) => if local {
            None
        } else {
            Some(q)
        },
        RobotAction::ToLocalCoordinator(q) => if local {
            Some(q)
        } else {
            None
        },
        _ => None,
    };
    match req {
        Some(RobotResponse::OrderInProcess { robot_id: id, order, addr: from, screen_addr }) => id
            == robot_id && order@ == o && from == addr && screen_addr == screen,
        _ => false,
    }
}

/// Whether `a` is what a robot (with these id, address, leader role, state and
/// screen) tells a new leader: `OrderInProcess` with its current order when it
/// works on one, else `NoOrderInProcess`.
pub open spec fn announces(
    a: RobotAction,
    robot_id: usize,
    addr: Address,
    local: bool,
    state: RobotState,
    screen: Option<Address>,
) -> bool {
    match state_order(state) {
        Some(o) => screen is Some && announces_order(a, robot_id, addr, local, o@, screen->0),
        None => a == RobotAction::ToCoordinator(RobotResponse::NoOrderInProcess { robot_id, addr }),
    }
}

/// The entries of `s` have pairwise distinct keys.
pub open spec fn distinct_keys<A, K>(s: Seq<A>, key: spec_fn(A) -> K) -> bool {
    forall|i: int, j: int| 0 <= i < j < s.len() ==> key(#[trigger] s[i]) != key(#[trigger] s[j])
}

/// The flavors of a list of amounts are pairwise distinct.
pub open spec fn distinct_flavors(s: Seq<(IceCreamFlavor, u32)>) -> bool {
    distinct_keys(s, |e: (IceCreamFlavor, u32)| e.0)
}

proof fn lemma_filter_distinct<A, K>(s: Seq<A>, keep: spec_fn(A) -> bool, key: spec_fn(A) -> K)
    requires
        distinct_keys(s, key),
    ensures
        distinct_keys(s.filter(keep), key),
    decreases s.len(),
{
    reveal(Seq::filter);
    if s.len() > 0 {
        let prev = s.drop_last();
        assert(distinct_keys(prev, key)) by {
            assert forall|i: int, j: int| 0 <= i < j < prev.len() implies key(#[trigger] prev[i]) != key(
                #[trigger] prev[j],
            ) by {
                assert(prev[i] == s[i] && prev[j] == s[j]);
            }
        }
        lemma_filter_distinct(prev, keep, key);
        if keep(s.last()) {
            let f = s.filter(keep);
            assert(f == prev.filter(keep).push(s.last()));
            assert forall|i: int, j: int| 0 <= i < j < f.len() implies key(#[trigger] f[i]) != key(
                #[trigger] f[j],
            ) by {
                if j == f.len() - 1 {
                    let e = f[i];
                    assert(prev.filter(keep).contains(e));
                    prev.lemma_filter_contains_rev(keep, e);
                    let k = choose|k: int| 0 <= k < prev.len() && prev[k] == e;
                    assert(s[k] == e);
                    assert(f[j] == s[s.len() - 1]);
                } else {
                    assert(f[i] == prev.filter(keep)[i] && f[j] == prev.filter(keep)[j]);
                }
            }
        }
    }
}

/// What an order asks of each container lists every flavor once.
pub proof fn lemma_amounts_distinct(o: OrderView)
    ensures
        distinct_flavors(amounts_spec(o)),
{
    let all = all_flavors();
    let keep = |f: IceCreamFlavor| uses_flavor(o.items, f);
    let id = |f: IceCreamFlavor| f;
    assert(distinct_keys(all, id)) by {
        assert forall|i: int, j: int| 0 <= i < j < all.len() implies id(#[trigger] all[i]) != id(#[trigger] all[j]) by {
            assert(all[i].spec_index() == i && all[j].spec_index() == j);
        }
    }
    lemma_filter_distinct(all, keep, id);
    let f = all.filter(keep);
    let m = amounts_spec(o);
    assert forall|i: int, j: int| 0 <= i < j < m.len() implies (#[trigger] m[i]).0 != (#[trigger] m[j]).0 by {
        assert(m[i].0 == f[i] && m[j].0 == f[j]);
        assert(id(f[i]) != id(f[j]));
    }
}

/// Whether a peer whose status is `p` is dead to the leader at time `now`.
pub open spec fn peer_dead(p: PeerStatus, now: u64) -> bool {
    p.ping_attempts >= MAX_PING_ATTEMPTS || match p.last_pong {
        Some(t) => now > t && now - t > PEER_DEAD_MS,
        None => false,
    }
}

/// Whether the leader, whose status is `p`, is dead to a follower at time `now`.
pub open spec fn leader_dead(p: PeerStatus, now: u64) -> bool {
    p.ping_attempts >= MAX_LEADER_PING_ATTEMPTS || match p.last_pong {
        Some(t) => now > t && now - t > LEADER_DEAD_MS,
        None => false,
    }
}

/// The ids of a peer table.
pub open spec fn peer_ids(peers: Seq<(usize, PeerStatus)>) -> Seq<usize> {
    peers.map_values(|p: (usize, PeerStatus)| p.0)
}

/// A copy of a list of flavor amounts.
pub fn copy_amounts(v: &Vec<(IceCreamFlavor, u32)>) -> (r: Vec<(IceCreamFlavor, u32)>)
    ensures
        r@ == v@,
{
    let mut r: Vec<(IceCreamFlavor, u32)> = Vec::new();
    let mut i: usize = 0;
    while i < v.len()
        invariant
            0 <= i <= v@.len(),
            r@ == v@.take(i as int),
        decreases v.len() - i,
    {
        r.push(v[i]);
        i = i + 1;
        assert(r@ =~= v@.take(i as int));
    }
    assert(v@.take(v@.len() as int) =~= v@);
    r
}

/// The list `v` without the entries of flavor `f`, in the same order.
pub fn remove_flavor(v: &Vec<(IceCreamFlavor, u32)>, f: IceCreamFlavor) -> (r: Vec<(IceCreamFlavor, u32)>)
    ensures
        r@ == v@.filter(|e: (IceCreamFlavor, u32)| e.0 != f),
{
    let mut r: Vec<(IceCreamFlavor, u32)> = Vec::new();
    let mut i: usize = 0;
    while i < v.len()
        invariant
            0 <= i <= v@.len(),
            r@ == v@.take(i as int).filter(|e: (IceCreamFlavor, u32)| e.0 != f),
        decreases v.len() - i,
    {
        assert(v@.take(i as int + 1).drop_last() =~= v@.take(i as int));
        reveal(Seq::filter);
        if v[i].0 != f {
            r.push(v[i]);
        }
        i = i + 1;
    }
    assert(v@.take(v@.len() as int) =~= v@);
    r
}

/// The two robots agree on everything but their work.
pub open spec fn same_membership(a: &Robot, b: &Robot) -> bool {
    &&& a.robot_id == b.robot_id
    &&& a.local_addr == b.local_addr
    &&& a.coordinator_id == b.coordinator_id
    &&& a.is_coordinator == b.is_coordinator
    &&& a.peers@ == b.peers@
    &&& a.election_state == b.election_state
}

/// One more unanswered ping, stopping at the largest count.
pub open spec fn bump(n: usize) -> usize {
    if n < usize::MAX {
        (n + 1) as usize
    } else {
        n
    }
}

/// The peer table after one more unanswered ping to every peer.
pub open spec fn bump_all(peers: Seq<(usize, PeerStatus)>) -> Seq<(usize, PeerStatus)> {
    peers.map_values(
        |p: (usize, PeerStatus)|
            (p.0, PeerStatus { last_pong: p.1.last_pong, ping_attempts: bump(p.1.ping_attempts) }),
    )
}

/// The peer table after one more unanswered ping to peer `id`.
pub open spec fn bump_one(peers: Seq<(usize, PeerStatus)>, id: usize) -> Seq<(usize, PeerStatus)> {
    peers.map_values(
        |p: (usize, PeerStatus)|
            if p.0 == id {
                (p.0, PeerStatus { last_pong: p.1.last_pong, ping_attempts: bump(p.1.ping_attempts) })
            } else {
                p
            },
    )
}

/// The peer table after a pong from peer `id` at time `now`.
pub open spec fn ponged(peers: Seq<(usize, PeerStatus)>, id: usize, now: u64) -> Seq<(usize, PeerStatus)> {
    peers.map_values(
        |p: (usize, PeerStatus)|
            if p.0 == id {
                (p.0, PeerStatus { last_pong: Some(now), ping_attempts: 0 })
            } else {
                p
            },
    )
}

impl Robot {
    /// Well-formed robot: its peers are other robots of the cluster, each once; a
    /// robot at work knows its order's screen and needs each flavor at most once;
    /// the order it works on fits.
    pub open spec fn wf(&self) -> bool {
        &&& forall|i: int|
            0 <= i < self.peers@.len() ==> (#[trigger] self.peers@[i]).0 < NUMBER_ROBOTS
                && self.peers@[i].0 != self.robot_id
        &&& forall|i: int, j: int|
            0 <= i < j < self.peers@.len() ==> (#[trigger] self.peers@[i]).0 != (#[trigger] self.peers@[j]).0
        &&& state_order(self.state) is Some ==> self.order_screen_addr is Some
        &&& distinct_flavors(remaining(self.state))
        &&& match state_order(self.state) {
            Some(o) => order_fits(o@),
            None => true,
        }
        &&& self.coordinator_id < NUMBER_ROBOTS
        &&& self.robot_id < NUMBER_ROBOTS
    }

    /// A robot with every other robot of the cluster as a peer, idle and with no
    /// election running.
    pub fn new(robot_id: usize, local_addr: Address, is_coordinator: bool, coordinator_id: usize) -> (r: Self)
        requires
            robot_id < NUMBER_ROBOTS,
            coordinator_id < NUMBER_ROBOTS,
        ensures
            r.wf(),
            forall|i: int, j: int|
                0 <= i < j < r.peers@.len() ==> (#[trigger] r.peers@[i]).0 != (#[trigger] r.peers@[j]).0,
            r.robot_id == robot_id,
            r.local_addr == local_addr,
            r.coordinator_id == coordinator_id,
            r.is_coordinator == is_coordinator,
            r.state is Idle,
            r.order_screen_addr is None,
            r.election_state == ElectionState::Settled,
            r.last_request_time is None,
            forall|id: usize|
                id < NUMBER_ROBOTS && id != robot_id <==> peer_ids(r.peers@).contains(id),
            forall|i: int|
                0 <= i < r.peers@.len() ==> (#[trigger] r.peers@[i]).1 == (PeerStatus {
                    last_pong: None,
                    ping_attempts: 0,
                }),
    {
        let mut peers: Vec<(usize, PeerStatus)> = Vec::new();
        let mut id: usize = 0;
        while id < NUMBER_ROBOTS
            invariant
                0 <= id <= NUMBER_ROBOTS,
                robot_id < NUMBER_ROBOTS,
                forall|i: int|
                    0 <= i < peers@.len() ==> (#[trigger] peers@[i]).0 < id && peers@[i].0
                        != robot_id,
                forall|i: int, j: int|
                    0 <= i < j < peers@.len() ==> (#[trigger] peers@[i]).0 < (#[trigger] peers@[j]).0,
                forall|x: usize| x < id && x != robot_id <==> peer_ids(peers@).contains(x),
                forall|i: int|
                    0 <= i < peers@.len() ==> (#[trigger] peers@[i]).1 == (PeerStatus {
                        last_pong: None,
                        ping_attempts: 0,
                    }),
            decreases NUMBER_ROBOTS - id,
        {
            let ghost before = peers@;
            if id != robot_id {
                peers.push((id, PeerStatus { last_pong: None, ping_attempts: 0 }));
                proof {
                    assert(peer_ids(peers@) =~= peer_ids(before).push(id));
                    assert forall|x: usize| x < id + 1 && x != robot_id implies peer_ids(
                        peers@,
                    ).contains(x) by {
                        if x < id {
                            assert(peer_ids(before).contains(x));
                            let w = choose|w: int|
                                0 <= w < peer_ids(before).len() && peer_ids(before)[w] == x;
                            assert(peers@[w] == before[w]);
                            assert(peer_ids(peers@)[w] == x);
                        } else {
                            assert(peer_ids(peers@)[peers@.len() - 1] == x);
                        }
                    }
                    assert forall|x: usize| peer_ids(peers@).contains(x) implies x < id + 1 && x
                        != robot_id by {
                        let w = choose|w: int|
                            0 <= w < peer_ids(peers@).len() && peer_ids(peers@)[w] == x;
                        assert(peers@[w].0 == x);
                    }
                }
            } else {
                proof {
                    assert forall|x: usize| peer_ids(peers@).contains(x) implies x < id + 1 && x
                        != robot_id by {
                        let w = choose|w: int|
                            0 <= w < peer_ids(peers@).len() && peer_ids(peers@)[w] == x;
                        assert(peers@[w].0 == x);
                    }
                }
            }
            id = id + 1;
        }
        Robot {
            robot_id,
            local_addr,
            coordinator_id,
            state: RobotState::Idle,
            order_screen_addr: None,
            is_coordinator,
            peers,
            election_state: ElectionState::Settled,
            last_request_time: None,
        }
    }

    /// Sends `request` to the leader.
    pub fn make_request(&self, request: RobotResponse, actions: &mut Vec<RobotAction>)
        ensures
            final(actions)@ == old(actions)@.push(RobotAction::ToCoordinator(request)),
    {
        actions.push(RobotAction::ToCoordinator(request));
    }

    /// Asks the leader for one of `flavors` and waits for the answer.
    pub fn request_access(
        &mut self,
        order: Order,
        flavors: Vec<(IceCreamFlavor, u32)>,
        now: u64,
        actions: &mut Vec<RobotAction>,
    )
        requires
            old(self).wf(),
            order_fits(order@),
            old(self).order_screen_addr is Some,
            distinct_flavors(flavors@),
        ensures
            final(self).wf(),
            final(self).state is WaitingForAccess,
            state_order(final(self).state) == Some(order),
            remaining(final(self).state) == flavors@,
            final(self).last_request_time == Some(now),
            final(actions)@.len() == old(actions)@.len() + 1,
            final(actions)@.drop_last() == old(actions)@,
            is_request_for(final(actions)@.last(), old(self).robot_id, flavors@, old(self).local_addr),
            final(self).peers@ == old(self).peers@,
            final(self).robot_id == old(self).robot_id,
            final(self).coordinator_id == old(self).coordinator_id,
            final(self).is_coordinator == old(self).is_coordinator,
            final(self).election_state == old(self).election_state,
            final(self).order_screen_addr == old(self).order_screen_addr,
            final(self).local_addr == old(self).local_addr,
    {
        let wanted = copy_amounts(&flavors);
        let request = RobotResponse::AccessRequest {
            robot_id: self.robot_id,
            flavors: wanted,
            addr: self.local_addr,
        };
        self.make_request(request, actions);
        self.state = RobotState::WaitingForAccess(order, flavors);
        self.last_request_time = Some(now);
        assert(actions@.drop_last() =~= old(actions)@);
    }

    /// Gives back the container of `flavor`.
    pub fn release_access(&mut self, flavor: IceCreamFlavor, actions: &mut Vec<RobotAction>)
        ensures
            final(actions)@ == old(actions)@.push(
                RobotAction::ToCoordinator(
                    RobotResponse::ReleaseRequest {
                        robot_id: old(self).robot_id,
                        flavor,
                        addr: old(self).local_addr,
                    },
                ),
            ),
            final(self).last_request_time is None,
            final(self).state == old(self).state,
            final(self).order_screen_addr == old(self).order_screen_addr,
            same_membership(final(self), old(self)),
    {
        let request = RobotResponse::ReleaseRequest {
            robot_id: self.robot_id,
            flavor,
            addr: self.local_addr,
        };
        self.last_request_time = None;
        self.make_request(request, actions);
    }

    /// Starts on `order`: asks for every flavor it needs.
    pub fn process_order(&mut self, order: Order, now: u64, actions: &mut Vec<RobotAction>)
        requires
            old(self).wf(),
            order_fits(order@),
            old(self).order_screen_addr is Some,
        ensures
            final(self).wf(),
            final(self).state is WaitingForAccess,
            state_order(final(self).state) == Some(order),
            remaining(final(self).state) == amounts_spec(order@),
            final(actions)@.len() == old(actions)@.len() + 1,
            final(actions)@.drop_last() == old(actions)@,
            is_request_for(
                final(actions)@.last(),
                old(self).robot_id,
                amounts_spec(order@),
                old(self).local_addr,
            ),
            final(self).order_screen_addr == old(self).order_screen_addr,
            same_membership(final(self), old(self)),
    {
        let flavors_needed = order.amounts_for_all_flavors();
        proof {
            lemma_amounts_distinct(order@);
        }
        self.request_access(order, flavors_needed, now, actions);
    }

    /// Takes an order from the leader, for the screen at `screen_addr`, unless
    /// the robot is already at work or the order's amounts do not fit.
    pub fn process_received_order(
        &mut self,
        order: Order,
        screen_addr: Address,
        now: u64,
        actions: &mut Vec<RobotAction>,
    )
        requires
            old(self).wf(),
        ensures
            final(self).wf(),
            same_membership(final(self), old(self)),
            old(self).state is Idle && order_fits(order@) ==> {
                &&& final(self).state is WaitingForAccess
                &&& state_order(final(self).state) == Some(order)
                &&& remaining(final(self).state) == amounts_spec(order@)
                &&& final(self).order_screen_addr == Some(screen_addr)
                &&& final(actions)@.len() == old(actions)@.len() + 1
                &&& is_request_for(
                    final(actions)@.last(),
                    old(self).robot_id,
                    amounts_spec(order@),
                    old(self).local_addr,
                )
            },
            !(old(self).state is Idle && order_fits(order@)) ==> {
                &&& final(self).state == old(self).state
                &&& final(self).order_screen_addr == old(self).order_screen_addr
                &&& final(actions)@ == old(actions)@
            },
    {
        let idle = match self.state {
            RobotState::Idle => true,
            _ => false,
        };
        if !idle || !order.fits() {
            return;
        }
        self.order_screen_addr = Some(screen_addr);
        self.process_order(order, now, actions);
    }

    /// Handles a grant of the container of `flavor`: when waiting for access,
    /// prepares with it for the order's preparation time.
    pub fn process_allowed_access(&mut self, flavor: IceCreamFlavor, actions: &mut Vec<RobotAction>)
        requires
            old(self).wf(),
        ensures
            final(self).wf(),
            same_membership(final(self), old(self)),
            final(self).order_screen_addr == old(self).order_screen_addr,
            old(self).state is WaitingForAccess ==> {
                &&& final(self).state is UsingContainer
                &&& final(self).state->UsingContainer_2 == flavor
                &&& state_order(final(self).state) == state_order(old(self).state)
                &&& remaining(final(self).state) == remaining(old(self).state)
                &&& final(actions)@ == old(actions)@.push(
                    RobotAction::Prepare {
                        millis: time_total(state_order(old(self).state)->0@.items) as u64,
                        flavor,
                    },
                )
            },
            !(old(self).state is WaitingForAccess) ==> final(self).state == old(self).state
                && final(actions)@ == old(actions)@,
    {
        let mut state = RobotState::Idle;
        std::mem::swap(&mut self.state, &mut state);
        match state {
            RobotState::WaitingForAccess(order, flavors) => {
                let millis = order.time_to_prepare() as u64;
                actions.push(RobotAction::Prepare { millis, flavor });
                self.state = RobotState::UsingContainer(order, flavors, flavor);
            },
            other => {
                self.state = other;
            },
        }
    }

    /// Handles the end of a preparation with the container of `flavor`: gives
    /// the container back, then asks for the flavors still needed or, when none
    /// is left, reports the order finished and becomes idle.
    pub fn finish_preparation(&mut self, flavor: IceCreamFlavor, now: u64, actions: &mut Vec<RobotAction>)
        requires
            old(self).wf(),
        ensures
            final(self).wf(),
            same_membership(final(self), old(self)),
            final(self).order_screen_addr == old(self).order_screen_addr,
            (old(self).state is UsingContainer && old(self).state->UsingContainer_2 == flavor) ==> {
                let rest = remaining(old(self).state).filter(
                    |e: (IceCreamFlavor, u32)| e.0 != flavor,
                );
                &&& final(actions)@.len() == old(actions)@.len() + 2
                &&& final(actions)@[old(actions)@.len() as int] == RobotAction::ToCoordinator(
                    RobotResponse::ReleaseRequest {
                        robot_id: old(self).robot_id,
                        flavor,
                        addr: old(self).local_addr,
                    },
                )
                &&& rest.len() > 0 ==> {
                    &&& final(self).state is WaitingForAccess
                    &&& state_order(final(self).state) == state_order(old(self).state)
                    &&& remaining(final(self).state) == rest
                    &&& is_request_for(
                        final(actions)@.last(),
                        old(self).robot_id,
                        rest,
                        old(self).local_addr,
                    )
                }
                &&& rest.len() == 0 ==> {
                    &&& final(self).state is Idle
                    &&& final(actions)@.last() == RobotAction::ToCoordinator(
                        RobotResponse::OrderFinished {
                            robot_id: old(self).robot_id,
                            order: state_order(old(self).state)->0,
                        },
                    )
                }
            },
            !(old(self).state is UsingContainer && old(self).state->UsingContainer_2 == flavor)
                ==> final(self).state == old(self).state && final(actions)@ == old(actions)@,
    {
        let mut state = RobotState::Idle;
        std::mem::swap(&mut self.state, &mut state);
        match state {
            RobotState::UsingContainer(order, flavors, held) => {
                if held != flavor {
                    self.state = RobotState::UsingContainer(order, flavors, held);
                    return;
                }
                self.release_access(flavor, actions);
                let ghost mid = actions@;
                let rest = remove_flavor(&flavors, flavor);
                proof {
                    lemma_filter_distinct(
                        flavors@,
                        |e: (IceCreamFlavor, u32)| e.0 != flavor,
                        |e: (IceCreamFlavor, u32)| e.0,
                    );
                }
                if rest.len() > 0 {
                    self.request_access(order, rest, now, actions);
                } else {
                    let request = RobotResponse::OrderFinished { robot_id: self.robot_id, order };
                    self.make_request(request, actions);
                }
                assert(actions@[old(actions)@.len() as int] == mid[old(actions)@.len() as int]);
            },
            other => {
                self.state = other;
            },
        }
    }

    /// Handles a denial: when waiting for access, waits `BACKOFF_MS` and asks
    /// again for the same flavors.
    pub fn process_denied_access(&mut self, reason: String, now: u64, actions: &mut Vec<RobotAction>)
        requires
            old(self).wf(),
        ensures
            final(self).wf(),
            same_membership(final(self), old(self)),
            final(self).order_screen_addr == old(self).order_screen_addr,
            old(self).state is WaitingForAccess ==> {
                &&& final(self).state is WaitingForAccess
                &&& state_order(final(self).state) == state_order(old(self).state)
                &&& remaining(final(self).state) == remaining(old(self).state)
                &&& final(actions)@.len() == old(actions)@.len() + 2
                &&& final(actions)@[old(actions)@.len() as int] == (RobotAction::Sleep {
                    millis: BACKOFF_MS,
                })
                &&& is_request_for(
                    final(actions)@.last(),
                    old(self).robot_id,
                    remaining(old(self).state),
                    old(self).local_addr,
                )
            },
            !(old(self).state is WaitingForAccess) ==> final(self).state == old(self).state
                && final(actions)@ == old(actions)@,
    {
        let mut state = RobotState::Idle;
        std::mem::swap(&mut self.state, &mut state);
        match state {
            RobotState::WaitingForAccess(order, flavors) => {
                actions.push(RobotAction::Sleep { millis: BACKOFF_MS });
                let ghost mid = actions@;
                self.request_access(order, flavors, now, actions);
                assert(actions@[old(actions)@.len() as int] == mid[old(actions)@.len() as int]);
            },
            other => {
                self.state = other;
            },
        }
    }

    /// Drops the current order on the leader's request, giving back the
    /// container in use, if any.
    pub fn abort_order(&mut self, robot_id: usize, order: Order, actions: &mut Vec<RobotAction>)
        requires
            old(self).wf(),
        ensures
            final(self).wf(),
            same_membership(final(self), old(self)),
            final(self).state is Idle,
            old(self).state is UsingContainer ==> final(actions)@ == old(actions)@.push(
                RobotAction::ToCoordinator(
                    RobotResponse::ReleaseRequest {
                        robot_id: old(self).robot_id,
                        flavor: old(self).state->UsingContainer_2,
                        addr: old(self).local_addr,
                    },
                ),
            ),
            !(old(self).state is UsingContainer) ==> final(actions)@ == old(actions)@,
    {
        let mut state = RobotState::Idle;
        std::mem::swap(&mut self.state, &mut state);
        if let RobotState::UsingContainer(_, _, flavor) = state {
            self.release_access(flavor, actions);
        }
    }

    /// Resumes the current work after a change of leader: asks the new leader
    /// again for the flavors still needed.
    pub fn continue_order(&mut self, now: u64, actions: &mut Vec<RobotAction>)
        requires
            old(self).wf(),
        ensures
            final(self).wf(),
            same_membership(final(self), old(self)),
            final(self).order_screen_addr == old(self).order_screen_addr,
            final(actions)@.len() >= old(actions)@.len(),
            final(actions)@.take(old(actions)@.len() as int) == old(actions)@,
            forall|i: int|
                old(actions)@.len() <= i < final(actions)@.len() ==> !is_readvertisement(
                    #[trigger] final(actions)@[i],
                ),
            old(self).state is WaitingForAccess ==> {
                &&& state_order(final(self).state) == state_order(old(self).state)
                &&& remaining(final(self).state) == remaining(old(self).state)
                &&& is_request_for(
                    final(actions)@.last(),
                    old(self).robot_id,
                    remaining(old(self).state),
                    old(self).local_addr,
                )
            },
            (old(self).state is Idle || old(self).state is UsingContainer) ==> final(self).state
                == old(self).state && final(actions)@ == old(actions)@,
    {
        let mut state = RobotState::Idle;
        std::mem::swap(&mut self.state, &mut state);
        match state {
            RobotState::WaitingForAccess(order, flavors) => {
                self.request_access(order, flavors, now, actions);
            },
            RobotState::ProcessingOrder(order) => {
                self.process_order(order, now, actions);
            },
            other => {
                self.state = other;
            },
        }
        assert(actions@.take(old(actions)@.len() as int) =~= old(actions)@);
    }

    /// Tells the leader that this robot has no order.
    pub fn send_idle_message(&self, actions: &mut Vec<RobotAction>)
        ensures
            final(actions)@ == old(actions)@.push(
                RobotAction::ToCoordinator(
                    RobotResponse::NoOrderInProcess { robot_id: self.robot_id, addr: self.local_addr },
                ),
            ),
    {
        let request = RobotResponse::NoOrderInProcess { robot_id: self.robot_id, addr: self.local_addr };
        self.make_request(request, actions);
    }

    /// Tells the leader that this robot works on `order`, for the screen it came
    /// from; a leader running in this process gets it directly.
    pub fn send_order_in_process_message(&self, order: &Order, actions: &mut Vec<RobotAction>)
        ensures
            self.order_screen_addr is Some ==> {
                &&& final(actions)@.len() == old(actions)@.len() + 1
                &&& final(actions)@.drop_last() == old(actions)@
                &&& is_readvertisement(final(actions)@.last())
                &&& announces_order(
                    final(actions)@.last(),
                    self.robot_id,
                    self.local_addr,
                    self.is_coordinator,
                    order@,
                    self.order_screen_addr->0,
                )
            },
            self.order_screen_addr is None ==> final(actions)@ == old(actions)@,
    {
        match self.order_screen_addr {
            Some(screen_addr) => {
                let request = RobotResponse::OrderInProcess {
                    robot_id: self.robot_id,
                    order: order.duplicate(),
                    addr: self.local_addr,
                    screen_addr,
                };
                if self.is_coordinator {
                    actions.push(RobotAction::ToLocalCoordinator(request));
                } else {
                    self.make_request(request, actions);
                }
                assert(actions@.drop_last() =~= old(actions)@);
            },
            None => {},
        }
    }

    /// Tells a new leader what this robot is doing: its order, or that it has none.
    pub fn send_current_order_to_new_coordinator(&self, actions: &mut Vec<RobotAction>)
        requires
            self.wf(),
        ensures
            final(actions)@.len() == old(actions)@.len() + 1,
            final(actions)@.drop_last() == old(actions)@,
            is_readvertisement(final(actions)@.last()),
            announces(
                final(actions)@.last(),
                self.robot_id,
                self.local_addr,
                self.is_coordinator,
                self.state,
                self.order_screen_addr,
            ),
    {
        match &self.state {
            RobotState::WaitingForAccess(order, _) => self.send_order_in_process_message(order, actions),
            RobotState::ProcessingOrder(order) => self.send_order_in_process_message(order, actions),
            RobotState::UsingContainer(order, _, _) => self.send_order_in_process_message(order, actions),
            RobotState::Idle => {
                self.send_idle_message(actions);
                assert(actions@.drop_last() =~= old(actions)@);
            },
        }
    }

    /// One more unanswered ping to peer `id`.
    fn bump_peer(&mut self, id: usize)
        requires
            old(self).wf(),
        ensures
            final(self).wf(),
            final(self).peers@ == bump_one(old(self).peers@, id),
            final(self).state == old(self).state,
            final(self).order_screen_addr == old(self).order_screen_addr,
            final(self).last_request_time == old(self).last_request_time,
            final(self).robot_id == old(self).robot_id,
            final(self).local_addr == old(self).local_addr,
            final(self).coordinator_id == old(self).coordinator_id,
            final(self).is_coordinator == old(self).is_coordinator,
            final(self).election_state == old(self).election_state,
    {
        let mut i: usize = 0;
        while i < self.peers.len()
            invariant
                self.wf(),
                0 <= i <= self.peers@.len(),
                self.peers@.len() == old(self).peers@.len(),
                forall|k: int| 0 <= k < i ==> self.peers@[k] == bump_one(old(self).peers@, id)[k],
                forall|k: int| i <= k < self.peers@.len() ==> self.peers@[k] == old(self).peers@[k],
                self.state == old(self).state,
                self.order_screen_addr == old(self).order_screen_addr,
                self.last_request_time == old(self).last_request_time,
                self.robot_id == old(self).robot_id,
                self.local_addr == old(self).local_addr,
                self.coordinator_id == old(self).coordinator_id,
                self.is_coordinator == old(self).is_coordinator,
                self.election_state == old(self).election_state,
            decreases self.peers.len() - i,
        {
            let (pid, status) = self.peers[i];
            if pid == id {
                let attempts = if status.ping_attempts < usize::MAX {
                    status.ping_attempts + 1
                } else {
                    status.ping_attempts
                };
                self.peers[i] = (pid, PeerStatus { last_pong: status.last_pong, ping_attempts: attempts });
            }
            i = i + 1;
        }
        assert(self.peers@ =~= bump_one(old(self).peers@, id));
    }

    /// Pings: a leader pings every peer, a follower only the leader; each ping
    /// counts as unanswered until a pong comes.
    pub fn send_ping(&mut self, actions: &mut Vec<RobotAction>)
        requires
            old(self).wf(),
        ensures
            final(self).wf(),
            final(self).state == old(self).state,
            final(self).order_screen_addr == old(self).order_screen_addr,
            final(self).election_state == old(self).election_state,
            final(self).is_coordinator == old(self).is_coordinator,
            final(self).coordinator_id == old(self).coordinator_id,
            old(self).is_coordinator ==> {
                &&& final(self).peers@ == bump_all(old(self).peers@)
                &&& final(actions)@ == old(actions)@ + old(self).peers@.map_values(
                    |p: (usize, PeerStatus)| RobotAction::SendPing { to: p.0 },
                )
            },
            !old(self).is_coordinator ==> {
                &&& final(self).peers@ == bump_one(old(self).peers@, old(self).coordinator_id)
                &&& final(actions)@ == old(actions)@.push(
                    RobotAction::SendPing { to: old(self).coordinator_id },
                )
            },
    {
        if self.is_coordinator {
            self.ping_all_peers(actions);
        } else {
            let id = self.coordinator_id;
            self.bump_peer(id);
            actions.push(RobotAction::SendPing { to: id });
        }
    }

    /// Pings every peer, counting one more unanswered ping for each.
    pub fn ping_all_peers(&mut self, actions: &mut Vec<RobotAction>)
        requires
            old(self).wf(),
        ensures
            final(self).wf(),
            final(self).peers@ == bump_all(old(self).peers@),
            final(actions)@ == old(actions)@ + old(self).peers@.map_values(
                |p: (usize, PeerStatus)| RobotAction::SendPing { to: p.0 },
            ),
            final(self).state == old(self).state,
            final(self).order_screen_addr == old(self).order_screen_addr,
            final(self).election_state == old(self).election_state,
            final(self).is_coordinator == old(self).is_coordinator,
            final(self).coordinator_id == old(self).coordinator_id,
    {
        let ghost sent = |p: (usize, PeerStatus)| RobotAction::SendPing { to: p.0 };
        let mut i: usize = 0;
        while i < self.peers.len()
            invariant
                self.wf(),
                0 <= i <= self.peers@.len(),
                self.peers@.len() == old(self).peers@.len(),
                forall|k: int| 0 <= k < i ==> self.peers@[k] == bump_all(old(self).peers@)[k],
                forall|k: int| i <= k < self.peers@.len() ==> self.peers@[k] == old(self).peers@[k],
                actions@ == old(actions)@ + old(self).peers@.take(i as int).map_values(sent),
                sent == (|p: (usize, PeerStatus)| RobotAction::SendPing { to: p.0 }),
                self.state == old(self).state,
                self.order_screen_addr == old(self).order_screen_addr,
                self.robot_id == old(self).robot_id,
                self.coordinator_id == old(self).coordinator_id,
                self.is_coordinator == old(self).is_coordinator,
                self.election_state == old(self).election_state,
            decreases self.peers.len() - i,
        {
            let (pid, status) = self.peers[i];
            let attempts = if status.ping_attempts < usize::MAX {
                status.ping_attempts + 1
            } else {
                status.ping_attempts
            };
            self.peers[i] = (pid, PeerStatus { last_pong: status.last_pong, ping_attempts: attempts });
            actions.push(RobotAction::SendPing { to: pid });
            assert(old(self).peers@.take(i as int + 1).map_values(sent) =~= old(self).peers@.take(
                i as int,
            ).map_values(sent).push(sent(old(self).peers@[i as int])));
            i = i + 1;
        }
        assert(self.peers@ =~= bump_all(old(self).peers@));
        assert(old(self).peers@.take(old(self).peers@.len() as int) =~= old(self).peers@);
    }

    /// The leader's check of its peers: every peer that is dead at `now` (too
    /// many unanswered pings, or no pong for too long) is dropped, and the
    /// leader component is asked to reassign its work.
    pub fn check_peers_status(&mut self, now: u64, actions: &mut Vec<RobotAction>)
        requires
            old(self).wf(),
        ensures
            final(self).wf(),
            final(self).peers@ == old(self).peers@.filter(
                |p: (usize, PeerStatus)| !peer_dead(p.1, now),
            ),
            final(actions)@ == old(actions)@ + old(self).peers@.filter(
                |p: (usize, PeerStatus)| peer_dead(p.1, now),
            ).map_values(
                |p: (usize, PeerStatus)|
                    RobotAction::ToLocalCoordinator(RobotResponse::ReassignOrder { robot_id: p.0 }),
            ),
            final(self).state == old(self).state,
            final(self).order_screen_addr == old(self).order_screen_addr,
            final(self).election_state == old(self).election_state,
            final(self).is_coordinator == old(self).is_coordinator,
            final(self).coordinator_id == old(self).coordinator_id,
    {
        let ghost table = self.peers@;
        let ghost alive = |p: (usize, PeerStatus)| !peer_dead(p.1, now);
        let ghost dead = |p: (usize, PeerStatus)| peer_dead(p.1, now);
        let ghost reassign = |p: (usize, PeerStatus)|
            RobotAction::ToLocalCoordinator(RobotResponse::ReassignOrder { robot_id: p.0 });
        let mut kept: Vec<(usize, PeerStatus)> = Vec::new();
        let mut i: usize = 0;
        while i < self.peers.len()
            invariant
                self.wf(),
                self.peers@ == table,
                0 <= i <= table.len(),
                kept@ == table.take(i as int).filter(alive),
                actions@ == old(actions)@ + table.take(i as int).filter(dead).map_values(reassign),
                alive == (|p: (usize, PeerStatus)| !peer_dead(p.1, now)),
                dead == (|p: (usize, PeerStatus)| peer_dead(p.1, now)),
                reassign == (|p: (usize, PeerStatus)|
                    RobotAction::ToLocalCoordinator(RobotResponse::ReassignOrder { robot_id: p.0 })),
                self.state == old(self).state,
                self.order_screen_addr == old(self).order_screen_addr,
                self.robot_id == old(self).robot_id,
                self.coordinator_id == old(self).coordinator_id,
                self.is_coordinator == old(self).is_coordinator,
                self.election_state == old(self).election_state,
                table == old(self).peers@,
            decreases self.peers.len() - i,
        {
            let (pid, status) = self.peers[i];
            assert(table.take(i as int + 1).drop_last() =~= table.take(i as int));
            reveal(Seq::filter);
            let over_attempts = status.ping_attempts >= MAX_PING_ATTEMPTS;
            let over_time = match status.last_pong {
                Some(t) => now > t && now - t > PEER_DEAD_MS,
                None => false,
            };
            if over_attempts || over_time {
                actions.push(
                    RobotAction::ToLocalCoordinator(RobotResponse::ReassignOrder { robot_id: pid }),
                );
                assert(table.take(i as int + 1).filter(dead).map_values(reassign) =~= table.take(
                    i as int,
                ).filter(dead).map_values(reassign).push(reassign(table[i as int])));
            } else {
                kept.push((pid, status));
            }
            i = i + 1;
        }
        assert(table.take(table.len() as int) =~= table);
        proof {
            lemma_filter_distinct(table, alive, |p: (usize, PeerStatus)| p.0);
            assert(distinct_keys(table, |p: (usize, PeerStatus)| p.0));
            assert forall|k: int| 0 <= k < kept@.len() implies (#[trigger] kept@[k]).0
                < NUMBER_ROBOTS && kept@[k].0 != self.robot_id by {
                assert(table.filter(alive).contains(kept@[k]));
                table.lemma_filter_contains_rev(alive, kept@[k]);
                assert(table.contains(kept@[k]));
                let j = choose|j: int| 0 <= j < table.len() && table[j] == kept@[k];
                assert(self.peers@[j] == table[j]);
            }
        }
        self.peers = kept;
    }

    /// A follower's check of the leader: when the leader's entry is dead at
    /// `now`, an election is to be started.
    pub fn check_coordinador_status(&mut self, now: u64)
        requires
            old(self).wf(),
        ensures
            final(self).wf(),
            (exists|i: int|
                0 <= i < old(self).peers@.len() && (#[trigger] old(self).peers@[i]).0 == old(self).coordinator_id && leader_dead(old(self).peers@[i].1, now))
                ==> final(self).election_state == ElectionState::StartingElection,
            !(exists|i: int|
                0 <= i < old(self).peers@.len() && (#[trigger] old(self).peers@[i]).0 == old(self).coordinator_id && leader_dead(old(self).peers@[i].1, now))
                ==> final(self).election_state == old(self).election_state,
            final(self).peers@ == old(self).peers@,
            final(self).state == old(self).state,
            final(self).is_coordinator == old(self).is_coordinator,
            final(self).coordinator_id == old(self).coordinator_id,
            final(self).order_screen_addr == old(self).order_screen_addr,
    {
        let mut found = false;
        let mut i: usize = 0;
        while i < self.peers.len()
            invariant
                0 <= i <= self.peers@.len(),
                found <==> exists|k: int|
                    0 <= k < i && (#[trigger] self.peers@[k]).0 == self.coordinator_id
                        && leader_dead(self.peers@[k].1, now),
            decreases self.peers.len() - i,
        {
            let (pid, status) = self.peers[i];
            let over_attempts = status.ping_attempts >= MAX_LEADER_PING_ATTEMPTS;
            let over_time = match status.last_pong {
                Some(t) => now > t && now - t > LEADER_DEAD_MS,
                None => false,
            };
            if pid == self.coordinator_id && (over_attempts || over_time) {
                found = true;
            }
            i = i + 1;
        }
        if found {
            self.election_state = ElectionState::StartingElection;
        }
    }

    /// The robot id of the peer at `addr`, if it is a robot of the cluster.
    pub fn get_peer_id(&self, addr: Address) -> (r: Option<usize>)
        ensures
            r matches Some(id) ==> robot_addr_spec(id) == addr,
            r is None ==> forall|id: usize| id < 10 ==> robot_addr_spec(id) != addr,
    {
        robot_id_of(addr)
    }

    /// Records a pong from `addr` at time `now`.
    pub fn update_last_pong(&mut self, addr: Address, now: u64)
        requires
            old(self).wf(),
        ensures
            final(self).wf(),
            match robot_id_spec(addr) {
                Some(id) => final(self).peers@ == ponged(old(self).peers@, id, now),
                None => final(self).peers@ == old(self).peers@,
            },
            final(self).state == old(self).state,
            final(self).election_state == old(self).election_state,
            final(self).is_coordinator == old(self).is_coordinator,
            final(self).coordinator_id == old(self).coordinator_id,
            final(self).order_screen_addr == old(self).order_screen_addr,
    {
        let id = match robot_id_of(addr) {
            Some(id) => id,
            None => {
                return;
            },
        };
        let mut i: usize = 0;
        while i < self.peers.len()
            invariant
                self.wf(),
                0 <= i <= self.peers@.len(),
                self.peers@.len() == old(self).peers@.len(),
                forall|k: int| 0 <= k < i ==> self.peers@[k] == ponged(old(self).peers@, id, now)[k],
                forall|k: int| i <= k < self.peers@.len() ==> self.peers@[k] == old(self).peers@[k],
                self.state == old(self).state,
                self.robot_id == old(self).robot_id,
                self.election_state == old(self).election_state,
                self.is_coordinator == old(self).is_coordinator,
                self.coordinator_id == old(self).coordinator_id,
                self.order_screen_addr == old(self).order_screen_addr,
            decreases self.peers.len() - i,
        {
            let (pid, _) = self.peers[i];
            if pid == id {
                self.peers[i] = (pid, PeerStatus { last_pong: Some(now), ping_attempts: 0 });
            }
            i = i + 1;
        }
        assert(self.peers@ =~= ponged(old(self).peers@, id, now));
    }

    /// Starts a Bully election: sends `Election` to every peer with a higher id
    /// and becomes a candidate.
    pub fn initiate_election(&mut self, actions: &mut Vec<RobotAction>)
        requires
            old(self).wf(),
        ensures
            final(self).wf(),
            final(self).election_state == ElectionState::Candidate,
            final(actions)@ == old(actions)@ + old(self).peers@.filter(
                |p: (usize, PeerStatus)| p.0 > old(self).robot_id,
            ).map_values(
                |p: (usize, PeerStatus)|
                    RobotAction::Election {
                        to: p.0,
                        message: ElectionMessage::Election { robot_id: old(self).robot_id },
                    },
            ),
            final(self).peers@ == old(self).peers@,
            final(self).state == old(self).state,
            final(self).is_coordinator == old(self).is_coordinator,
            final(self).coordinator_id == old(self).coordinator_id,
            final(self).order_screen_addr == old(self).order_screen_addr,
    {
        let me = self.robot_id;
        let ghost higher = |p: (usize, PeerStatus)| p.0 > me;
        let ghost ask = |p: (usize, PeerStatus)|
            RobotAction::Election { to: p.0, message: ElectionMessage::Election { robot_id: me } };
        let mut i: usize = 0;
        while i < self.peers.len()
            invariant
                0 <= i <= self.peers@.len(),
                actions@ == old(actions)@ + self.peers@.take(i as int).filter(higher).map_values(ask),
                higher == (|p: (usize, PeerStatus)| p.0 > me),
                ask == (|p: (usize, PeerStatus)|
                    RobotAction::Election { to: p.0, message: ElectionMessage::Election { robot_id: me } }),
            decreases self.peers.len() - i,
        {
            let (pid, _) = self.peers[i];
            assert(self.peers@.take(i as int + 1).drop_last() =~= self.peers@.take(i as int));
            reveal(Seq::filter);
            if pid > me {
                actions.push(
                    RobotAction::Election { to: pid, message: ElectionMessage::Election { robot_id: me } },
                );
                assert(self.peers@.take(i as int + 1).filter(higher).map_values(ask) =~= self.peers@.take(
                    i as int,
                ).filter(higher).map_values(ask).push(ask(self.peers@[i as int])));
            }
            i = i + 1;
        }
        assert(self.peers@.take(self.peers@.len() as int) =~= self.peers@);
        self.election_state = ElectionState::Candidate;
    }

    /// Ends the wait for answers: a candidate that no higher robot answered
    /// becomes the leader, starts the leader component, announces itself to
    /// every peer and tells the new component what it is doing.
    pub fn check_election_results(&mut self, actions: &mut Vec<RobotAction>)
        requires
            old(self).wf(),
        ensures
            final(self).wf(),
            old(self).election_state == ElectionState::Candidate ==> {
                &&& final(self).election_state == ElectionState::Settled
                &&& final(self).is_coordinator
                &&& final(self).coordinator_id == old(self).robot_id
                &&& final(actions)@.len() == old(actions)@.len() + old(self).peers@.len() + 2
                &&& final(actions)@[old(actions)@.len() as int] == RobotAction::StartCoordinator
                &&& forall|k: int|
                    0 <= k < old(self).peers@.len() ==> final(actions)@[old(actions)@.len() + 1 + k]
                        == (RobotAction::Election {
                        to: (#[trigger] old(self).peers@[k]).0,
                        message: ElectionMessage::NewCoordinator { robot_id: old(self).robot_id },
                    })
                &&& is_readvertisement(final(actions)@.last())
                &&& announces(
                    final(actions)@.last(),
                    old(self).robot_id,
                    old(self).local_addr,
                    true,
                    old(self).state,
                    old(self).order_screen_addr,
                )
            },
            old(self).election_state != ElectionState::Candidate ==> final(actions)@ == old(
                actions,
            )@ && final(self).election_state == old(self).election_state && final(self).is_coordinator
                == old(self).is_coordinator,
            final(self).peers@ == old(self).peers@,
            final(self).state == old(self).state,
    {
        if self.election_state != ElectionState::Candidate {
            return;
        }
        self.election_state = ElectionState::Settled;
        self.is_coordinator = true;
        self.coordinator_id = self.robot_id;
        actions.push(RobotAction::StartCoordinator);
        let me = self.robot_id;
        let mut i: usize = 0;
        while i < self.peers.len()
            invariant
                self.wf(),
                self.robot_id == me,
                self.is_coordinator,
                self.coordinator_id == me,
                self.election_state == ElectionState::Settled,
                self.peers@ == old(self).peers@,
                self.state == old(self).state,
                0 <= i <= self.peers@.len(),
                actions@.len() == old(actions)@.len() + 1 + i,
                actions@[old(actions)@.len() as int] == RobotAction::StartCoordinator,
                forall|k: int|
                    0 <= k < i ==> actions@[old(actions)@.len() + 1 + k] == (RobotAction::Election {
                        to: (#[trigger] self.peers@[k]).0,
                        message: ElectionMessage::NewCoordinator { robot_id: me },
                    }),
            decreases self.peers.len() - i,
        {
            let (pid, _) = self.peers[i];
            actions.push(
                RobotAction::Election { to: pid, message: ElectionMessage::NewCoordinator { robot_id: me } },
            );
            i = i + 1;
        }
        self.send_current_order_to_new_coordinator(actions);
    }

    /// Handles a message of the Bully election.
    ///
    /// `Election` from a lower robot is answered, and starts an election here if
    /// none is running. `NewCoordinator` makes this robot a follower of the
    /// announced leader; the robot first tells the new leader what it is doing,
    /// in exactly one message, and only then resumes its work. An answer makes
    /// this robot a follower that waits for the announcement.
    pub fn handle_election_message(
        &mut self,
        message: ElectionMessage,
        now: u64,
        actions: &mut Vec<RobotAction>,
    )
        requires
            old(self).wf(),
        ensures
            final(self).wf(),
            match message {
                ElectionMessage::Election { robot_id } => {
                    &&& robot_id < old(self).robot_id ==> {
                        &&& final(actions)@ == old(actions)@.push(
                            RobotAction::Election {
                                to: robot_id,
                                message: ElectionMessage::Answer { robot_id: old(self).robot_id },
                            },
                        )
                        &&& final(self).election_state == if old(self).election_state
                            == ElectionState::Settled {
                            ElectionState::StartingElection
                        } else {
                            old(self).election_state
                        }
                    }
                    &&& robot_id >= old(self).robot_id ==> final(actions)@ == old(actions)@
                        && final(self).election_state == old(self).election_state
                },
                ElectionMessage::NewCoordinator { robot_id } => robot_id < NUMBER_ROBOTS ==> {
                    &&& final(self).coordinator_id == robot_id
                    &&& !final(self).is_coordinator
                    &&& final(self).election_state == ElectionState::Settled
                    &&& final(actions)@.len() > old(actions)@.len()
                    &&& is_readvertisement(final(actions)@[old(actions)@.len() as int])
                    &&& announces(
                        final(actions)@[old(actions)@.len() as int],
                        old(self).robot_id,
                        old(self).local_addr,
                        false,
                        old(self).state,
                        old(self).order_screen_addr,
                    )
                    &&& forall|i: int|
                        old(actions)@.len() < i < final(actions)@.len() ==> !is_readvertisement(
                            #[trigger] final(actions)@[i],
                        )
                },
                ElectionMessage::Answer { .. } => {
                    &&& final(self).election_state == ElectionState::Follower
                    &&& final(actions)@ == old(actions)@
                },
            },
    {
        match message {
            ElectionMessage::Election { robot_id } => {
                if robot_id < self.robot_id {
                    actions.push(
                        RobotAction::Election {
                            to: robot_id,
                            message: ElectionMessage::Answer { robot_id: self.robot_id },
                        },
                    );
                    if self.election_state == ElectionState::Settled {
                        self.election_state = ElectionState::StartingElection;
                    }
                }
            },
            ElectionMessage::NewCoordinator { robot_id } => {
                if robot_id >= NUMBER_ROBOTS {
                    return;
                }
                self.is_coordinator = false;
                self.election_state = ElectionState::Settled;
                self.coordinator_id = robot_id;
                self.send_current_order_to_new_coordinator(actions);
                let ghost mid = actions@;
                self.continue_order(now, actions);
                proof {
                    assert(actions@.take(mid.len() as int)[old(actions)@.len() as int] == mid[old(actions)@.len() as int]);
                    assert forall|i: int|
                        old(actions)@.len() < i < actions@.len() implies !is_readvertisement(
                        #[trigger] actions@[i],
                    ) by {
                        if i < mid.len() {
                            assert(false);
                        }
                    }
                }
            },
            ElectionMessage::Answer { .. } => {
                self.election_state = ElectionState::Follower;
            },
        }
    }

    /// Handles a liveness message from `from`: a ping is answered with a pong; a
    /// pong is recorded.
    pub fn handle_ping_message(
        &mut self,
        message: PingMessage,
        from: Address,
        now: u64,
        actions: &mut Vec<RobotAction>,
    )
        requires
            old(self).wf(),
        ensures
            final(self).wf(),
            message == PingMessage::Ping ==> final(actions)@ == old(actions)@.push(
                RobotAction::SendPong { addr: from },
            ) && final(self).peers@ == old(self).peers@,
            message == PingMessage::Pong ==> final(actions)@ == old(actions)@ && match robot_id_spec(
                from,
            ) {
                Some(id) => final(self).peers@ == ponged(old(self).peers@, id, now),
                None => final(self).peers@ == old(self).peers@,
            },
            final(self).state == old(self).state,
            final(self).election_state == old(self).election_state,
    {
        match message {
            PingMessage::Ping => {
                actions.push(RobotAction::SendPong { addr: from });
            },
            PingMessage::Pong => {
                self.update_last_pong(from, now);
            },
        }
    }

    /// Handles a message from the leader: a grant, a denial, a new order, an
    /// abort or an acknowledgement.
    pub fn handle_as_robot(&mut self, message: CoordinatorMessage, now: u64, actions: &mut Vec<RobotAction>)
        requires
            old(self).wf(),
        ensures
            final(self).wf(),
            same_membership(final(self), old(self)),
            match message {
                CoordinatorMessage::AccessAllowed { flavor } => {
                    &&& old(self).state is WaitingForAccess ==> {
                        &&& final(self).state is UsingContainer
                        &&& final(self).state->UsingContainer_2 == flavor
                        &&& remaining(final(self).state) == remaining(old(self).state)
                        &&& final(actions)@ == old(actions)@.push(
                            RobotAction::Prepare {
                                millis: time_total(state_order(old(self).state)->0@.items) as u64,
                                flavor,
                            },
                        )
                    }
                    &&& !(old(self).state is WaitingForAccess) ==> final(self).state == old(self).state
                        && final(actions)@ == old(actions)@
                },
                CoordinatorMessage::AccessDenied { .. } => {
                    &&& old(self).state is WaitingForAccess ==> {
                        &&& final(self).state is WaitingForAccess
                        &&& remaining(final(self).state) == remaining(old(self).state)
                        &&& final(actions)@.len() == old(actions)@.len() + 2
                        &&& final(actions)@[old(actions)@.len() as int] == (RobotAction::Sleep {
                            millis: BACKOFF_MS,
                        })
                        &&& is_request_for(
                            final(actions)@.last(),
                            old(self).robot_id,
                            remaining(old(self).state),
                            old(self).local_addr,
                        )
                    }
                    &&& !(old(self).state is WaitingForAccess) ==> final(self).state == old(self).state
                        && final(actions)@ == old(actions)@
                },
                CoordinatorMessage::OrderReceived { order, screen_addr, .. } => {
                    &&& old(self).state is Idle && order_fits(order@) ==> {
                        &&& final(self).state is WaitingForAccess
                        &&& state_order(final(self).state) == Some(order)
                        &&& final(self).order_screen_addr == Some(screen_addr)
                        &&& final(actions)@.len() == old(actions)@.len() + 1
                        &&& is_request_for(
                            final(actions)@.last(),
                            old(self).robot_id,
                            amounts_spec(order@),
                            old(self).local_addr,
                        )
                    }
                    &&& !(old(self).state is Idle && order_fits(order@)) ==> final(self).state
                        == old(self).state && final(actions)@ == old(actions)@
                },
                CoordinatorMessage::OrderAborted { .. } => {
                    &&& final(self).state is Idle
                    &&& old(self).state is UsingContainer ==> final(actions)@ == old(actions)@.push(
                        RobotAction::ToCoordinator(
                            RobotResponse::ReleaseRequest {
                                robot_id: old(self).robot_id,
                                flavor: old(self).state->UsingContainer_2,
                                addr: old(self).local_addr,
                            },
                        ),
                    )
                    &&& !(old(self).state is UsingContainer) ==> final(actions)@ == old(actions)@
                },
                CoordinatorMessage::ACK => final(self).state == old(self).state && final(actions)@
                    == old(actions)@,
            },
    {
        match message {
            CoordinatorMessage::AccessAllowed { flavor } => {
                self.process_allowed_access(flavor, actions);
            },
            CoordinatorMessage::AccessDenied { reason } => {
                self.process_denied_access(reason, now, actions);
            },
            CoordinatorMessage::OrderReceived { robot_id: _, order, screen_addr } => {
                self.process_received_order(order, screen_addr, now, actions);
            },
            CoordinatorMessage::OrderAborted { robot_id, order } => {
                self.abort_order(robot_id, order, actions);
            },
            CoordinatorMessage::ACK => {},
        }
    }

    /// The ping timer: pings while no election runs.
    pub fn on_ping_tick(&mut self, actions: &mut Vec<RobotAction>)
        requires
            old(self).wf(),
        ensures
            final(self).wf(),
            old(self).election_state != ElectionState::Settled ==> final(actions)@ == old(actions)@
                && final(self).peers@ == old(self).peers@,
            old(self).election_state == ElectionState::Settled && !old(self).is_coordinator
                ==> final(actions)@ == old(actions)@.push(
                RobotAction::SendPing { to: old(self).coordinator_id },
            ) && final(self).peers@ == bump_one(old(self).peers@, old(self).coordinator_id),
            old(self).election_state == ElectionState::Settled && old(self).is_coordinator ==> {
                &&& final(self).peers@ == bump_all(old(self).peers@)
                &&& final(actions)@ == old(actions)@ + old(self).peers@.map_values(
                    |p: (usize, PeerStatus)| RobotAction::SendPing { to: p.0 },
                )
            },
    {
        if self.election_state == ElectionState::Settled {
            self.send_ping(actions);
        }
    }

    /// The status timer: while no election runs, a leader checks its peers and a
    /// follower checks the leader.
    pub fn on_status_tick(&mut self, now: u64, actions: &mut Vec<RobotAction>)
        requires
            old(self).wf(),
        ensures
            final(self).wf(),
            old(self).election_state == ElectionState::Settled && old(self).is_coordinator ==> {
                &&& final(self).peers@ == old(self).peers@.filter(
                    |p: (usize, PeerStatus)| !peer_dead(p.1, now),
                )
                &&& final(actions)@ == old(actions)@ + old(self).peers@.filter(
                    |p: (usize, PeerStatus)| peer_dead(p.1, now),
                ).map_values(
                    |p: (usize, PeerStatus)|
                        RobotAction::ToLocalCoordinator(RobotResponse::ReassignOrder { robot_id: p.0 }),
                )
            },
            old(self).election_state == ElectionState::Settled && !old(self).is_coordinator ==> {
                &&& final(actions)@ == old(actions)@
                &&& final(self).peers@ == old(self).peers@
                &&& final(self).election_state == if exists|i: int|
                    0 <= i < old(self).peers@.len() && (#[trigger] old(self).peers@[i]).0 == old(self).coordinator_id && leader_dead(old(self).peers@[i].1, now) {
                    ElectionState::StartingElection
                } else {
                    old(self).election_state
                }
            },
            old(self).election_state != ElectionState::Settled ==> final(actions)@ == old(actions)@
                && final(self).election_state == old(self).election_state,
    {
        if self.election_state == ElectionState::Settled {
            if self.is_coordinator {
                self.check_peers_status(now, actions);
            } else {
                self.check_coordinador_status(now);
            }
        }
    }

    /// The election timer: starts the election that was asked for. Returns
    /// whether it did, in which case `check_election_results` is due once the
    /// answers have had time to come.
    pub fn on_election_tick(&mut self, actions: &mut Vec<RobotAction>) -> (r: bool)
        requires
            old(self).wf(),
        ensures
            final(self).wf(),
            r == (old(self).election_state == ElectionState::StartingElection),
            r ==> final(self).election_state == ElectionState::Candidate,
            !r ==> final(actions)@ == old(actions)@ && final(self).election_state == old(self).election_state,
    {
        if self.election_state == ElectionState::StartingElection {
            self.initiate_election(actions);
            true
        } else {
            false
        }
    }

    /// The retry timer: a follower whose access request has gone unanswered for
    /// longer than `RETRY_INTERVAL_MS` sends it again.
    pub fn on_retry_tick(&mut self, now: u64, actions: &mut Vec<RobotAction>)
        requires
            old(self).wf(),
        ensures
            final(self).wf(),
            same_membership(final(self), old(self)),
            ({
                let due = !old(self).is_coordinator && old(self).state is WaitingForAccess && match old(self).last_request_time {
                    Some(t) => now > t && now - t > RETRY_INTERVAL_MS,
                    None => false,
                };
                &&& due ==> is_request_for(
                    final(actions)@.last(),
                    old(self).robot_id,
                    remaining(old(self).state),
                    old(self).local_addr,
                ) && final(actions)@.len() == old(actions)@.len() + 1
                    && remaining(final(self).state) == remaining(old(self).state)
                &&& !due ==> final(actions)@ == old(actions)@ && final(self).state == old(self).state
            }),
    {
        if self.is_coordinator {
            return;
        }
        let due = match self.last_request_time {
            Some(t) => now > t && now - t > RETRY_INTERVAL_MS,
            None => false,
        };
        if !due {
            return;
        }
        let mut state = RobotState::Idle;
        std::mem::swap(&mut self.state, &mut state);
        match state {
            RobotState::WaitingForAccess(order, flavors) => {
                self.request_access(order, flavors, now, actions);
            },
            other => {
                self.state = other;
            },
        }
    }

    /// Where a received frame with tag `tag` goes: liveness and election frames
    /// to this robot; the leader's traffic to its component when this robot
    /// leads; anything else, for a follower, is the leader's word.
    pub fn route(&self, tag: Tag) -> (r: Route)
        ensures
            r == route_spec(tag, self.is_coordinator),
    {
        match tag {
            Tag::Ping => Route::Ping,
            Tag::Election => Route::Election,
            _ => if self.is_coordinator {
                match tag {
                    Tag::Prepare => Route::Prepare,
                    Tag::Commit => Route::Commit,
                    Tag::Abort => Route::Abort,
                    Tag::Access => Route::Access,
                    _ => Route::Ignore,
                }
            } else {
                Route::Robot
            },
        }
    }
}

/// A peer whose unanswered pings reached `MAX_PING_ATTEMPTS` is dead, and so is
/// dropped by the leader's next check, whatever the time.
pub proof fn lemma_dead_after_max_attempts(peers: Seq<(usize, PeerStatus)>, k: int, now: u64)
    requires
        0 <= k < peers.len(),
        peers[k].1.ping_attempts >= MAX_PING_ATTEMPTS,
    ensures
        peer_dead(peers[k].1, now),
        !peers.filter(|p: (usize, PeerStatus)| !peer_dead(p.1, now)).contains(peers[k]),
{
    broadcast use vstd::seq_lib::group_filter_ensures;

    let alive = |p: (usize, PeerStatus)| !peer_dead(p.1, now);
    let kept = peers.filter(alive);
    if kept.contains(peers[k]) {
        let w = choose|w: int| 0 <= w < kept.len() && kept[w] == peers[k];
        assert(alive(kept[w]));
    }
}

} // verus!
