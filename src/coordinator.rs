use vstd::prelude::*;

use std::collections::HashMap;

use crate::container::Container;
use crate::flavor::{all_flavors, IceCreamFlavor, NUMBER_OF_FLAVORS};
use crate::framing::Tag;
use crate::messages::{
    Address, CoordinatorMessage, RobotResponse, ScreenMessage, ScreenReply, NUMBER_ROBOTS,
};
use crate::order::{Order, OrderView};

verus! {

/// Where an order accepted by the leader stands.
#[derive(Debug, Clone, Copy, PartialEq, Eq, Structural)]
pub enum OrderStatus {
    Pending,
    CompletedButNotCommited,
    CommitReceived,
    Completed,
    Aborted,
}

/// What the leader knows of a robot.
#[derive(Debug, Clone, Copy, PartialEq, Eq, Structural)]
pub enum RobotStateForCoordinator {
    Idle,
    Disconnected,
    Busy { order_id: usize },
    UsingContainer { order_id: usize, flavor: IceCreamFlavor },
}

/// The leader's record of an accepted order.
#[derive(Debug)]
pub struct OrderState {
    pub order: Order,
    pub status: OrderStatus,
    pub screen_addr: Address,
    pub robot_id: Option<usize>,
}

/// A message that the leader hands to the transport.
#[derive(Debug)]
pub enum LeaderAction {
    /// To the robot with this id, at its own port.
    ToRobot { robot_id: usize, message: CoordinatorMessage },
    /// To the address a robot gave in its request.
    ToAddress { addr: Address, message: CoordinatorMessage },
    /// `<verb>\n<order-id>` to a screen.
    ToScreen { addr: Address, reply: ScreenReply, order_id: usize },
}

/// Quantity of each container when a leader starts.
pub const INITIAL_QUANTITY: u32 = 10000;

/// The order-management leader: container arbiter, order dispatcher and
/// two-phase-commit participant facing the screens.
pub struct Coordinator {
    pub coord_id: usize,
    /// One container per flavor, at the flavor's index.
    pub containers: Vec<Container>,
    /// One entry per robot id; `None` for ids that are not known robots.
    pub robot_states: Vec<Option<RobotStateForCoordinator>>,
    pub orders: HashMap<usize, OrderState>,
    /// Orders waiting for an idle robot, oldest first.
    pub order_queue: Vec<(Order, Address)>,
    /// Robots that re-advertised their work to this leader.
    pub received_all_updated_orders: Vec<usize>,
}

/// Whether `s` is a robot holding the container of `f`.
pub open spec fn holds_flavor(s: Option<RobotStateForCoordinator>, f: IceCreamFlavor) -> bool {
    match s {
        Some(RobotStateForCoordinator::UsingContainer { flavor, .. }) => flavor == f,
        _ => false,
    }
}

/// The containers and the robots agree on who holds what: a container names its
/// holder exactly when that robot is recorded as using that container.
pub open spec fn ledger_ok(
    containers: Seq<Container>,
    robots: Seq<Option<RobotStateForCoordinator>>,
) -> bool {
    &&& forall|i: int|
        #![trigger containers[i]]
        0 <= i < containers.len() ==> match containers[i].in_use_by {
            Some(r) => r < robots.len() && holds_flavor(robots[r as int], all_flavors()[i]),
            None => true,
        }
    &&& forall|r: int|
        #![trigger robots[r]]
        0 <= r < robots.len() ==> match robots[r] {
            Some(RobotStateForCoordinator::UsingContainer { flavor, .. }) => containers[flavor.spec_index() as int].in_use_by
                == Some(r as usize),
            _ => true,
        }
}

/// Whether robot `r` is known and idle.
pub open spec fn is_idle(robots: Seq<Option<RobotStateForCoordinator>>, r: int) -> bool {
    robots[r] == Some(RobotStateForCoordinator::Idle)
}

/// The order id that a robot state is working on, if any.
pub open spec fn working_on(s: Option<RobotStateForCoordinator>) -> Option<usize> {
    match s {
        Some(RobotStateForCoordinator::Busy { order_id }) => Some(order_id),
        Some(RobotStateForCoordinator::UsingContainer { order_id, .. }) => Some(order_id),
        _ => None,
    }
}

/// The container of `f` in a ledger.
pub open spec fn container_of(containers: Seq<Container>, f: IceCreamFlavor) -> Container {
    containers[f.spec_index() as int]
}

/// `r` is the lowest robot id that is idle.
pub open spec fn first_idle(robots: Seq<Option<RobotStateForCoordinator>>, r: int) -> bool {
    &&& 0 <= r < robots.len()
    &&& is_idle(robots, r)
    &&& forall|j: int| 0 <= j < r ==> !is_idle(robots, j)
}

/// No robot is idle.
pub open spec fn none_idle(robots: Seq<Option<RobotStateForCoordinator>>) -> bool {
    forall|j: int| 0 <= j < robots.len() ==> !is_idle(robots, j)
}

/// The record `s` with robot `r` assigned.
pub open spec fn with_robot(s: OrderState, r: usize) -> OrderState {
    OrderState { order: s.order, status: s.status, screen_addr: s.screen_addr, robot_id: Some(r) }
}

/// The status after the screen's `commit` arrives.
pub open spec fn commit_step(st: OrderStatus) -> OrderStatus {
    match st {
        OrderStatus::Pending => OrderStatus::CommitReceived,
        OrderStatus::CompletedButNotCommited => OrderStatus::Completed,
        _ => st,
    }
}

/// The status after a robot reports the order finished.
pub open spec fn finish_step(st: OrderStatus) -> OrderStatus {
    match st {
        OrderStatus::Pending => OrderStatus::CompletedButNotCommited,
        OrderStatus::CommitReceived => OrderStatus::Completed,
        _ => st,
    }
}

/// The record `s` with its status moved to `st`.
pub open spec fn restatus(s: OrderState, st: OrderStatus) -> OrderState {
    OrderState { order: s.order, status: st, screen_addr: s.screen_addr, robot_id: s.robot_id }
}

/// Whether the container of the `j`-th requested flavor is free.
pub open spec fn is_free(containers: Seq<Container>, req: Seq<(IceCreamFlavor, u32)>, j: int) -> bool {
    container_of(containers, req[j].0).in_use_by is None
}

/// `k` is the first request whose container is free.
pub open spec fn first_free(containers: Seq<Container>, req: Seq<(IceCreamFlavor, u32)>, k: int) -> bool {
    &&& 0 <= k < req.len()
    &&& is_free(containers, req, k)
    &&& forall|j: int| 0 <= j < k ==> !is_free(containers, req, j)
}

/// No requested container is free.
pub open spec fn none_free(containers: Seq<Container>, req: Seq<(IceCreamFlavor, u32)>) -> bool {
    forall|j: int| 0 <= j < req.len() ==> !is_free(containers, req, j)
}

/// The state of a known robot `r`, or `None`.
pub open spec fn robot_at(robots: Seq<Option<RobotStateForCoordinator>>, r: usize) -> Option<
    RobotStateForCoordinator,
> {
    if r < robots.len() {
        robots[r as int]
    } else {
        None
    }
}

/// The effect of aborting order `id` on a leader that went from `a` to `b`, with
/// actions going from `acts_a` to `acts_b`: the record is gone and so is every
/// queued entry of the order; the robot the record names, which works on the
/// order, is told `OrderAborted`, becomes idle and gives its container back; the
/// order's screen is told `abort`. For an unknown order only the queue changes.
pub open spec fn aborted(
    a: &Coordinator,
    b: &Coordinator,
    acts_a: Seq<LeaderAction>,
    acts_b: Seq<LeaderAction>,
    id: usize,
) -> bool {
    &&& b.orders@ == a.orders@.remove(id)
    &&& b.order_queue@ == a.order_queue@.filter(|e: (Order, Address)| e.0.order_id != id)
    &&& if !a.orders@.contains_key(id) {
        &&& acts_b == acts_a
        &&& b.robot_states@ == a.robot_states@
        &&& b.containers@ == a.containers@
    } else {
        let rec = a.orders@[id];
        let reply = LeaderAction::ToScreen { addr: rec.screen_addr, reply: ScreenReply::Abort, order_id: id };
        match rec.robot_id {
            Some(r) => {
                &&& acts_b == acts_a.push(
                    LeaderAction::ToRobot {
                        robot_id: r,
                        message: CoordinatorMessage::OrderAborted { robot_id: r, order: rec.order },
                    },
                ).push(reply)
                &&& b.robot_states@ == a.robot_states@.update(
                    r as int,
                    Some(RobotStateForCoordinator::Idle),
                )
                &&& forall|i: int|
                    0 <= i < NUMBER_OF_FLAVORS ==> #[trigger] b.containers@[i] == if holds_flavor(
                        a.robot_states@[r as int],
                        all_flavors()[i],
                    ) {
                        Container { quantity: a.containers@[i].quantity, in_use_by: None }
                    } else {
                        a.containers@[i]
                    }
            },
            None => {
                &&& acts_b == acts_a.push(reply)
                &&& b.robot_states@ == a.robot_states@
                &&& b.containers@ == a.containers@
            },
        }
    }
}

/// The two-phase-commit message that a screen's frame with tag `tag` and order
/// `order`, sent from `from`, carries to the leader: `prepare`, `commit` or
/// `abort`; `None` for any other tag.
pub fn screen_message(tag: Tag, order: Order, from: Address) -> (r: Option<ScreenMessage>)
    ensures
        tag == Tag::Prepare ==> r == Some(ScreenMessage::OrderRequest { order, screen_addr: from }),
        tag == Tag::Commit ==> r == Some(ScreenMessage::CommitReceived { order }),
        tag == Tag::Abort ==> r == Some(ScreenMessage::Abort { order }),
        !(tag == Tag::Prepare || tag == Tag::Commit || tag == Tag::Abort) ==> r is None,
{
    match tag {
        Tag::Prepare => Some(ScreenMessage::OrderRequest { order, screen_addr: from }),
        Tag::Commit => Some(ScreenMessage::CommitReceived { order }),
        Tag::Abort => Some(ScreenMessage::Abort { order }),
        _ => None,
    }
}

/// Whether some entry of the queue `q` holds order `k`.
pub open spec fn queued(q: Seq<(Order, Address)>, k: usize) -> bool {
    exists|i: int| 0 <= i < q.len() && q[i].0.order_id == k
}

/// The `finished` reply owed when a robot reports order `id` done: one exactly
/// when the screen's `commit` has already arrived.
pub open spec fn finish_reply(orders: Map<usize, OrderState>, id: usize) -> Seq<LeaderAction> {
    if orders.contains_key(id) && orders[id].status == OrderStatus::CommitReceived {
        seq![LeaderAction::ToScreen { addr: orders[id].screen_addr, reply: ScreenReply::Finished, order_id: id }]
    } else {
        Seq::empty()
    }
}

/// Whether `a` hands robot `r` an order whose value is `o`, for the screen at `addr`.
pub open spec fn hands_order(a: LeaderAction, r: usize, o: OrderView, addr: Address) -> bool {
    match a {
        LeaderAction::ToRobot {
            robot_id,
            message: CoordinatorMessage::OrderReceived { robot_id: target, order, screen_addr },
        } => robot_id == r && target == r && order@ == o && screen_addr == addr,
        _ => false,
    }
}

/// Whether a record is owed a robot's work: the order is neither finished nor aborted.
pub open spec fn owed_work(orders: Map<usize, OrderState>, id: usize) -> bool {
    orders.contains_key(id) && (orders[id].status == OrderStatus::Pending || orders[id].status
        == OrderStatus::CommitReceived)
}

/// Whether `a` tells the robot at `addr` that no container can be had.
pub open spec fn is_denial(a: LeaderAction, addr: Address) -> bool {
    match a {
        LeaderAction::ToAddress { addr: to, message: CoordinatorMessage::AccessDenied { .. } } => to
            == addr,
        _ => false,
    }
}

/// Some robot is idle, so a lowest idle robot exists.
pub proof fn lemma_first_idle_exists(robots: Seq<Option<RobotStateForCoordinator>>, j: int)
    requires
        0 <= j < robots.len(),
        is_idle(robots, j),
    ensures
        exists|r: int| first_idle(robots, r),
    decreases j,
{
    if exists|k: int| 0 <= k < j && is_idle(robots, k) {
        let k = choose|k: int| 0 <= k < j && is_idle(robots, k);
        lemma_first_idle_exists(robots, k);
    } else {
        assert(first_idle(robots, j));
    }
}

/// A record names a robot only while that robot works on the record's order.
pub open spec fn records_ok(
    orders: Map<usize, OrderState>,
    robots: Seq<Option<RobotStateForCoordinator>>,
) -> bool {
    forall|k: usize|
        #![trigger orders.contains_key(k)]
        orders.contains_key(k) && orders[k].robot_id is Some ==> orders[k].robot_id->0 < robots.len()
            && working_on(robots[orders[k].robot_id->0 as int]) == Some(k)
}

/// The record `s` with no robot.
pub open spec fn without_robot(s: OrderState) -> OrderState {
    OrderState { order: s.order, status: s.status, screen_addr: s.screen_addr, robot_id: None }
}

/// The records once robot `r` stops working on its order: the record of that
/// order no longer names `r`.
pub open spec fn unassigned(
    orders: Map<usize, OrderState>,
    robots: Seq<Option<RobotStateForCoordinator>>,
    r: usize,
) -> Map<usize, OrderState> {
    match working_on(robots[r as int]) {
        Some(o) => if orders.contains_key(o) && orders[o].robot_id == Some(r) {
            orders.insert(o, without_robot(orders[o]))
        } else {
            orders
        },
        None => orders,
    }
}

impl Coordinator {
    /// Well-formed leader state: one container per flavor and one entry per
    /// robot, the ledger agrees with the robots, records are keyed by their order
    /// id, and a record names only a robot that works on its order.
    pub open spec fn wf(&self) -> bool {
        &&& self.containers@.len() == NUMBER_OF_FLAVORS
        &&& self.robot_states@.len() == NUMBER_ROBOTS
        &&& ledger_ok(self.containers@, self.robot_states@)
        &&& forall|k: usize| #[trigger]
            self.orders@.contains_key(k) ==> self.orders@[k].order.order_id == k
        &&& records_ok(self.orders@, self.robot_states@)
    }

    /// Robot ids `0..NUMBER_ROBOTS` but `coord_id` are the known robots, all idle;
    /// every container is full and free; no order is known.
    pub fn new(coord_id: usize) -> (r: Self)
        ensures
            r.wf(),
            r.coord_id == coord_id,
            forall|i: int|
                0 <= i < NUMBER_ROBOTS ==> r.robot_states@[i] == if i == coord_id {
                    None
                } else {
                    Some(RobotStateForCoordinator::Idle)
                },
            forall|i: int|
                0 <= i < NUMBER_OF_FLAVORS ==> r.containers@[i] == (Container {
                    quantity: INITIAL_QUANTITY,
                    in_use_by: None,
                }),
            r.orders@.is_empty(),
            r.order_queue@.len() == 0,
            r.received_all_updated_orders@.len() == 0,
    {
        let mut containers: Vec<Container> = Vec::new();
        let mut i: usize = 0;
        while i < NUMBER_OF_FLAVORS
            invariant
                0 <= i <= NUMBER_OF_FLAVORS,
                containers@.len() == i,
                forall|k: int|
                    0 <= k < i ==> containers@[k] == (Container {
                        quantity: INITIAL_QUANTITY,
                        in_use_by: None,
                    }),
            decreases NUMBER_OF_FLAVORS - i,
        {
            containers.push(Container::new(INITIAL_QUANTITY));
            i = i + 1;
        }
        let mut robot_states: Vec<Option<RobotStateForCoordinator>> = Vec::new();
        let mut id: usize = 0;
        while id < NUMBER_ROBOTS
            invariant
                0 <= id <= NUMBER_ROBOTS,
                robot_states@.len() == id,
                forall|k: int|
                    0 <= k < id ==> robot_states@[k] == if k == coord_id {
                        None
                    } else {
                        Some(RobotStateForCoordinator::Idle)
                    },
            decreases NUMBER_ROBOTS - id,
        {
            if id == coord_id {
                robot_states.push(None);
            } else {
                robot_states.push(Some(RobotStateForCoordinator::Idle));
            }
            id = id + 1;
        }
        Coordinator {
            coord_id,
            containers,
            robot_states,
            orders: HashMap::new(),
            order_queue: Vec::new(),
            received_all_updated_orders: Vec::new(),
        }
    }

    /// Makes the record of robot `robot_id`'s order stop naming it.
    fn unassign(&mut self, robot_id: usize)
        requires
            old(self).wf(),
            robot_id < NUMBER_ROBOTS,
        ensures
            final(self).wf(),
            final(self).orders@ == unassigned(old(self).orders@, old(self).robot_states@, robot_id),
            forall|k: usize|
                final(self).orders@.contains_key(k) ==> #[trigger] final(self).orders@[k].robot_id
                    != Some(robot_id),
            final(self).robot_states@ == old(self).robot_states@,
            final(self).containers@ == old(self).containers@,
            final(self).order_queue@ == old(self).order_queue@,
            final(self).received_all_updated_orders@ == old(self).received_all_updated_orders@,
            final(self).coord_id == old(self).coord_id,
    {
        let work = match self.robot_states[robot_id] {
            Some(RobotStateForCoordinator::Busy { order_id }) => Some(order_id),
            Some(RobotStateForCoordinator::UsingContainer { order_id, .. }) => Some(order_id),
            _ => None,
        };
        if let Some(o) = work {
            if let Some(mut record) = self.orders.remove(&o) {
                if record.robot_id == Some(robot_id) {
                    record.robot_id = None;
                }
                self.orders.insert(o, record);
                assert(self.orders@ =~= unassigned(old(self).orders@, old(self).robot_states@, robot_id));
            }
        }
        assert forall|k: usize| self.orders@.contains_key(k) implies #[trigger] self.orders@[k].robot_id
            != Some(robot_id) by {
            assert(old(self).orders@.contains_key(k));
        }
    }

    /// Records robot `robot_id` as `next`, first freeing the container it held, if any.
    fn set_robot_state(&mut self, robot_id: usize, next: RobotStateForCoordinator)
        requires
            old(self).wf(),
            robot_id < NUMBER_ROBOTS,
            !(next is UsingContainer),
            forall|k: usize|
                old(self).orders@.contains_key(k) && old(self).orders@[k].robot_id == Some(robot_id)
                    ==> working_on(Some(next)) == Some(k),
        ensures
            final(self).wf(),
            final(self).robot_states@ == old(self).robot_states@.update(robot_id as int, Some(next)),
            forall|i: int|
                #![trigger final(self).containers@[i]]
                0 <= i < NUMBER_OF_FLAVORS ==> final(self).containers@[i] == if holds_flavor(
                    old(self).robot_states@[robot_id as int],
                    all_flavors()[i],
                ) {
                    Container { quantity: old(self).containers@[i].quantity, in_use_by: None }
                } else {
                    old(self).containers@[i]
                },
            final(self).orders@ == old(self).orders@,
            final(self).order_queue@ == old(self).order_queue@,
            final(self).received_all_updated_orders@ == old(self).received_all_updated_orders@,
            final(self).coord_id == old(self).coord_id,
    {
        let ghost old_c = self.containers@;
        let ghost old_r = self.robot_states@;
        if let Some(RobotStateForCoordinator::UsingContainer { flavor, .. }) = self.robot_states[robot_id] {
            let i = flavor.index();
            let mut c = self.containers[i];
            c.release_container();
            self.containers[i] = c;
        }
        self.robot_states[robot_id] = Some(next);
        proof {
            assert forall|i: int|
                #![trigger self.containers@[i]]
                0 <= i < NUMBER_OF_FLAVORS implies self.containers@[i] == if holds_flavor(
                    old_r[robot_id as int],
                    all_flavors()[i],
                ) {
                    Container { quantity: old_c[i].quantity, in_use_by: None }
                } else {
                    old_c[i]
                } by {
                if let Some(RobotStateForCoordinator::UsingContainer { flavor, .. }) = old_r[robot_id as int] {
                    if flavor != all_flavors()[i] {
                        assert(flavor.spec_index() != i);
                    }
                }
            }
            assert forall|i: int|
                #![trigger self.containers@[i]]
                0 <= i < self.containers@.len() implies match self.containers@[i].in_use_by {
                    Some(r) => r < self.robot_states@.len() && holds_flavor(
                        self.robot_states@[r as int],
                        all_flavors()[i],
                    ),
                    None => true,
                } by {
                assert(old_c[i] == old_c[i]);
            }
            assert forall|r: int|
                #![trigger self.robot_states@[r]]
                0 <= r < self.robot_states@.len() implies match self.robot_states@[r] {
                    Some(RobotStateForCoordinator::UsingContainer { flavor, .. }) => self.containers@[flavor.spec_index() as int].in_use_by
                        == Some(r as usize),
                    _ => true,
                } by {
                assert(old_r[r] == old_r[r]);
                if let Some(RobotStateForCoordinator::UsingContainer { flavor, .. }) = old_r[r] {
                    assert(old_c[flavor.spec_index() as int].in_use_by == Some(r as usize));
                    assert(all_flavors()[flavor.spec_index() as int] == flavor);
                }
            }
        }
    }

    /// The flavor of the container that robot `robot_id` holds, if any.
    pub fn check_robot_has_container(&self, robot_id: usize) -> (r: Option<IceCreamFlavor>)
        requires
            self.wf(),
        ensures
            r == if robot_id < NUMBER_ROBOTS {
                match self.robot_states@[robot_id as int] {
                    Some(RobotStateForCoordinator::UsingContainer { flavor, .. }) => Some(flavor),
                    _ => None,
                }
            } else {
                None
            },
    {
        if robot_id >= NUMBER_ROBOTS {
            return None;
        }
        match self.robot_states[robot_id] {
            Some(RobotStateForCoordinator::UsingContainer { flavor, .. }) => Some(flavor),
            _ => None,
        }
    }

    /// Grants the container of `flavor` to robot `robot_id`, taking `amount` from it,
    /// if the robot is busy with an order; returns whether it did.
    pub fn update_robot_state_to_using_container(
        &mut self,
        robot_id: usize,
        flavor: IceCreamFlavor,
        amount: u32,
    ) -> (r: bool)
        requires
            old(self).wf(),
            robot_id < NUMBER_ROBOTS,
            container_of(old(self).containers@, flavor).in_use_by.is_none(),
            amount <= container_of(old(self).containers@, flavor).quantity,
        ensures
            final(self).wf(),
            r == (old(self).robot_states@[robot_id as int] is Some && old(self).robot_states@[robot_id as int]->0 is Busy),
            r ==> final(self).robot_states@ == old(self).robot_states@.update(
                robot_id as int,
                Some(
                    RobotStateForCoordinator::UsingContainer {
                        order_id: working_on(old(self).robot_states@[robot_id as int])->0,
                        flavor,
                    },
                ),
            ),
            r ==> final(self).containers@ == old(self).containers@.update(
                flavor.spec_index() as int,
                Container {
                    quantity: (container_of(old(self).containers@, flavor).quantity - amount) as u32,
                    in_use_by: Some(robot_id),
                },
            ),
            !r ==> final(self).robot_states@ == old(self).robot_states@,
            !r ==> final(self).containers@ == old(self).containers@,
            final(self).orders@ == old(self).orders@,
            final(self).order_queue@ == old(self).order_queue@,
            final(self).received_all_updated_orders@ == old(self).received_all_updated_orders@,
            final(self).coord_id == old(self).coord_id,
    {
        let ghost old_c = self.containers@;
        let ghost old_r = self.robot_states@;
        if let Some(RobotStateForCoordinator::Busy { order_id }) = self.robot_states[robot_id] {
            let i = flavor.index();
            let mut c = self.containers[i];
            c.use_container(robot_id, amount);
            self.containers[i] = c;
            self.robot_states[robot_id] = Some(
                RobotStateForCoordinator::UsingContainer { order_id, flavor },
            );
            proof {
                assert forall|k: int|
                    #![trigger self.containers@[k]]
                    0 <= k < self.containers@.len() implies match self.containers@[k].in_use_by {
                        Some(r) => r < self.robot_states@.len() && holds_flavor(
                            self.robot_states@[r as int],
                            all_flavors()[k],
                        ),
                        None => true,
                    } by {
                    assert(old_c[k] == old_c[k]);
                    if k != i {
                        if let Some(h) = old_c[k].in_use_by {
                            assert(holds_flavor(old_r[h as int], all_flavors()[k]));
                            assert(h != robot_id);
                        }
                    }
                }
                assert forall|q: int|
                    #![trigger self.robot_states@[q]]
                    0 <= q < self.robot_states@.len() implies match self.robot_states@[q] {
                        Some(RobotStateForCoordinator::UsingContainer { flavor, .. }) => self.containers@[flavor.spec_index() as int].in_use_by
                            == Some(q as usize),
                        _ => true,
                    } by {
                    assert(old_r[q] == old_r[q]);
                    if q != robot_id {
                        if let Some(RobotStateForCoordinator::UsingContainer { flavor: g, .. }) = old_r[q] {
                            assert(old_c[g.spec_index() as int].in_use_by == Some(q as usize));
                        }
                    }
                }
            }
            true
        } else {
            false
        }
    }

    /// Takes robot `robot_id` off its order: frees its container and records it idle.
    pub fn free_robot_after_abort(&mut self, robot_id: usize)
        requires
            old(self).wf(),
        ensures
            final(self).wf(),
            robot_id < NUMBER_ROBOTS && old(self).robot_states@[robot_id as int] is Some
                ==> final(self).robot_states@ == old(self).robot_states@.update(
                robot_id as int,
                Some(RobotStateForCoordinator::Idle),
            ),
            !(robot_id < NUMBER_ROBOTS && old(self).robot_states@[robot_id as int] is Some)
                ==> final(self).robot_states@ == old(self).robot_states@ && final(self).containers@
                == old(self).containers@,
            forall|i: int|
                0 <= i < NUMBER_OF_FLAVORS ==> #[trigger] final(self).containers@[i] == if robot_id
                    < NUMBER_ROBOTS && holds_flavor(
                    old(self).robot_states@[robot_id as int],
                    all_flavors()[i],
                ) {
                    Container { quantity: old(self).containers@[i].quantity, in_use_by: None }
                } else {
                    old(self).containers@[i]
                },
            final(self).orders@ == if robot_id < NUMBER_ROBOTS {
                unassigned(old(self).orders@, old(self).robot_states@, robot_id)
            } else {
                old(self).orders@
            },
            final(self).order_queue@ == old(self).order_queue@,
            final(self).received_all_updated_orders@ == old(self).received_all_updated_orders@,
            final(self).coord_id == old(self).coord_id,
    {
        if robot_id < NUMBER_ROBOTS && self.robot_states[robot_id].is_some() {
            self.unassign(robot_id);
            self.set_robot_state(robot_id, RobotStateForCoordinator::Idle);
        }
    }

    /// Handles a release: frees the container of `flavor` if robot `robot_id` holds
    /// it, and records the robot busy again with its order. A release from a robot
    /// that does not hold the container changes nothing.
    pub fn release_access_to_flavor(&mut self, robot_id: usize, flavor: IceCreamFlavor)
        requires
            old(self).wf(),
        ensures
            final(self).wf(),
            robot_id < NUMBER_ROBOTS && holds_flavor(old(self).robot_states@[robot_id as int], flavor)
                ==> {
                &&& final(self).robot_states@ == old(self).robot_states@.update(
                    robot_id as int,
                    Some(
                        RobotStateForCoordinator::Busy {
                            order_id: working_on(old(self).robot_states@[robot_id as int])->0,
                        },
                    ),
                )
                &&& final(self).containers@ == old(self).containers@.update(
                    flavor.spec_index() as int,
                    Container {
                        quantity: container_of(old(self).containers@, flavor).quantity,
                        in_use_by: None,
                    },
                )
            },
            !(robot_id < NUMBER_ROBOTS && holds_flavor(old(self).robot_states@[robot_id as int], flavor))
                ==> final(self).robot_states@ == old(self).robot_states@ && final(self).containers@
                == old(self).containers@,
            final(self).orders@ == old(self).orders@,
            final(self).order_queue@ == old(self).order_queue@,
            final(self).received_all_updated_orders@ == old(self).received_all_updated_orders@,
            final(self).coord_id == old(self).coord_id,
    {
        if robot_id >= NUMBER_ROBOTS {
            return;
        }
        let ghost old_c = self.containers@;
        if let Some(RobotStateForCoordinator::UsingContainer { order_id, flavor: held }) = self.robot_states[robot_id] {
            if held == flavor {
                self.set_robot_state(robot_id, RobotStateForCoordinator::Busy { order_id });
                proof {
                    assert forall|i: int| 0 <= i < NUMBER_OF_FLAVORS implies self.containers@[i]
                        == old_c.update(
                        flavor.spec_index() as int,
                        Container { quantity: container_of(old_c, flavor).quantity, in_use_by: None },
                    )[i] by {
                        if i != flavor.spec_index() {
                            assert(all_flavors()[i] != flavor);
                        }
                    }
                    assert(self.containers@ =~= old_c.update(
                        flavor.spec_index() as int,
                        Container { quantity: container_of(old_c, flavor).quantity, in_use_by: None },
                    ));
                }
            }
        }
    }

    /// Asks robot `robot_id` to drop `order`.
    fn send_abort_message_to_robot(order: Order, robot_id: usize, actions: &mut Vec<LeaderAction>)
        ensures
            final(actions)@ == old(actions)@.push(
                LeaderAction::ToRobot {
                    robot_id,
                    message: CoordinatorMessage::OrderAborted { robot_id, order },
                },
            ),
    {
        actions.push(
            LeaderAction::ToRobot {
                robot_id,
                message: CoordinatorMessage::OrderAborted { robot_id, order },
            },
        );
    }

    /// Tells the robot at `addr` that none of the containers it asked for can be had.
    fn send_denied_access_to_robot(addr: Address, actions: &mut Vec<LeaderAction>)
        ensures
            final(actions)@.len() == old(actions)@.len() + 1,
            final(actions)@.take(old(actions)@.len() as int) == old(actions)@,
            final(actions)@.last() matches LeaderAction::ToAddress {
                addr: a,
                message: CoordinatorMessage::AccessDenied { .. },
            } && a == addr,
    {
        let ghost before = actions@;
        actions.push(
            LeaderAction::ToAddress {
                addr,
                message: CoordinatorMessage::AccessDenied {
                    reason: String::from_str("All requested containers are in use or empty"),
                },
            },
        );
        assert(actions@.take(before.len() as int) =~= before);
    }

    /// Replies `<reply>\n<order_id>` to the screen at `addr`.
    fn send_to_screen(addr: Address, reply: ScreenReply, order_id: usize, actions: &mut Vec<LeaderAction>)
        ensures
            final(actions)@ == old(actions)@.push(LeaderAction::ToScreen { addr, reply, order_id }),
    {
        actions.push(LeaderAction::ToScreen { addr, reply, order_id });
    }

    /// Records `order` as pending, for the screen at `screen_addr`, with no robot yet.
    /// A record of the same id is replaced.
    pub fn register_order(&mut self, screen_addr: Address, order: &Order)
        requires
            old(self).wf(),
        ensures
            final(self).wf(),
            final(self).orders@.contains_key(order.order_id),
            final(self).orders@[order.order_id].order@ == order@,
            final(self).orders@[order.order_id].status == OrderStatus::Pending,
            final(self).orders@[order.order_id].screen_addr == screen_addr,
            final(self).orders@[order.order_id].robot_id.is_none(),
            final(self).orders@.remove(order.order_id) == old(self).orders@.remove(order.order_id),
            final(self).robot_states@ == old(self).robot_states@,
            final(self).containers@ == old(self).containers@,
            final(self).order_queue@ == old(self).order_queue@,
            final(self).received_all_updated_orders@ == old(self).received_all_updated_orders@,
            final(self).coord_id == old(self).coord_id,
    {
        let record = OrderState {
            order: order.duplicate(),
            status: OrderStatus::Pending,
            screen_addr,
            robot_id: None,
        };
        self.orders.insert(order.id(), record);
        assert(self.orders@.remove(order.order_id) =~= old(self).orders@.remove(order.order_id));
    }

    /// The lowest idle robot id, if some robot is idle.
    pub fn first_idle_robot(&self) -> (r: Option<usize>)
        requires
            self.wf(),
        ensures
            r matches Some(id) ==> first_idle(self.robot_states@, id as int),
            r is None ==> none_idle(self.robot_states@),
    {
        let mut id: usize = 0;
        while id < NUMBER_ROBOTS
            invariant
                self.wf(),
                0 <= id <= NUMBER_ROBOTS,
                forall|j: int| 0 <= j < id ==> !is_idle(self.robot_states@, j),
            decreases NUMBER_ROBOTS - id,
        {
            if let Some(RobotStateForCoordinator::Idle) = self.robot_states[id] {
                return Some(id);
            }
            id = id + 1;
        }
        None
    }

    /// Notes robot `robot_id` on the record of `order_id`, if there is one.
    fn set_order_robot(&mut self, order_id: usize, robot_id: usize)
        requires
            old(self).wf(),
            robot_id < NUMBER_ROBOTS,
            working_on(old(self).robot_states@[robot_id as int]) == Some(order_id),
        ensures
            final(self).wf(),
            final(self).orders@ == if old(self).orders@.contains_key(order_id) {
                old(self).orders@.insert(order_id, with_robot(old(self).orders@[order_id], robot_id))
            } else {
                old(self).orders@
            },
            final(self).robot_states@ == old(self).robot_states@,
            final(self).containers@ == old(self).containers@,
            final(self).order_queue@ == old(self).order_queue@,
            final(self).received_all_updated_orders@ == old(self).received_all_updated_orders@,
            final(self).coord_id == old(self).coord_id,
    {
        if let Some(mut record) = self.orders.remove(&order_id) {
            record.robot_id = Some(robot_id);
            self.orders.insert(order_id, record);
            assert(self.orders@ =~= old(self).orders@.insert(
                order_id,
                with_robot(old(self).orders@[order_id], robot_id),
            ));
        }
    }

    /// Dispatches `order` to the lowest idle robot, or queues it when every robot is
    /// busy.
    pub fn assign_order_to_robot(
        &mut self,
        order: Order,
        screen_addr: &Address,
        actions: &mut Vec<LeaderAction>,
    )
        requires
            old(self).wf(),
        ensures
            final(self).wf(),
            final(self).containers@ == old(self).containers@,
            final(self).received_all_updated_orders@ == old(self).received_all_updated_orders@,
            final(self).coord_id == old(self).coord_id,
            forall|k: usize| #[trigger]
                final(self).orders@.contains_key(k) == old(self).orders@.contains_key(k),
            forall|k: usize|
                old(self).orders@.contains_key(k) ==> #[trigger] final(self).orders@[k].status
                    == old(self).orders@[k].status,
            forall|k: usize|
                old(self).orders@.contains_key(k) ==> #[trigger] final(self).orders@[k].screen_addr
                    == old(self).orders@[k].screen_addr,
            forall|k: usize|
                old(self).orders@.contains_key(k) ==> #[trigger] final(self).orders@[k].order
                    == old(self).orders@[k].order,
            forall|k: usize|
                k != order.order_id && old(self).orders@.contains_key(k) ==> #[trigger] final(self).orders@[k]
                    == old(self).orders@[k],
            forall|i: int|
                old(actions)@.len() <= i < final(actions)@.len() ==> #[trigger] final(actions)@[i] is ToRobot,
            final(actions)@.len() >= old(actions)@.len(),
            final(actions)@.take(old(actions)@.len() as int) == old(actions)@,
            forall|q: int|
                0 <= q < NUMBER_ROBOTS && !is_idle(old(self).robot_states@, q)
                    ==> #[trigger] final(self).robot_states@[q] == old(self).robot_states@[q],
            forall|r: int|
                first_idle(old(self).robot_states@, r) ==> {
                    &&& final(self).robot_states@ == old(self).robot_states@.update(
                        r,
                        Some(RobotStateForCoordinator::Busy { order_id: order.order_id }),
                    )
                    &&& final(self).orders@ == if old(self).orders@.contains_key(order.order_id) {
                        old(self).orders@.insert(
                            order.order_id,
                            with_robot(old(self).orders@[order.order_id], r as usize),
                        )
                    } else {
                        old(self).orders@
                    }
                    &&& final(self).order_queue@ == old(self).order_queue@
                    &&& final(actions)@ == old(actions)@.push(
                        LeaderAction::ToRobot {
                            robot_id: r as usize,
                            message: CoordinatorMessage::OrderReceived {
                                robot_id: r as usize,
                                order,
                                screen_addr: *screen_addr,
                            },
                        },
                    )
                },
            none_idle(old(self).robot_states@) ==> {
                &&& final(self).robot_states@ == old(self).robot_states@
                &&& final(self).orders@ == old(self).orders@
                &&& final(self).order_queue@ == old(self).order_queue@.push((order, *screen_addr))
                &&& final(actions)@ == old(actions)@
            },
    {
        match self.first_idle_robot() {
            Some(robot_id) => {
                let order_id = order.id();
                self.set_robot_state(robot_id, RobotStateForCoordinator::Busy { order_id });
                self.set_order_robot(order_id, robot_id);
                actions.push(
                    LeaderAction::ToRobot {
                        robot_id,
                        message: CoordinatorMessage::OrderReceived {
                            robot_id,
                            order,
                            screen_addr: *screen_addr,
                        },
                    },
                );
                proof {
                    assert forall|i: int| 0 <= i < NUMBER_OF_FLAVORS implies self.containers@[i]
                        == old(self).containers@[i] by {
                        assert(self.containers@[i] == self.containers@[i]);
                    }
                    assert(self.containers@ =~= old(self).containers@);
                    assert forall|r: int| first_idle(old(self).robot_states@, r) implies r
                        == robot_id by {
                        if r < robot_id {
                            assert(!is_idle(old(self).robot_states@, r));
                        } else if r > robot_id {
                            assert(!is_idle(old(self).robot_states@, robot_id as int));
                        }
                    }
                }
            },
            None => {
                self.order_queue.push((order, *screen_addr));
            },
        }
    }

    /// Moves the oldest queued order to an idle robot, if both exist.
    pub fn dispatch_next_pending(&mut self, actions: &mut Vec<LeaderAction>)
        requires
            old(self).wf(),
        ensures
            final(self).wf(),
            final(self).containers@ == old(self).containers@,
            final(self).received_all_updated_orders@ == old(self).received_all_updated_orders@,
            final(self).coord_id == old(self).coord_id,
            forall|k: usize| #[trigger]
                final(self).orders@.contains_key(k) == old(self).orders@.contains_key(k),
            forall|k: usize|
                old(self).orders@.contains_key(k) ==> #[trigger] final(self).orders@[k].status
                    == old(self).orders@[k].status,
            forall|k: usize|
                old(self).orders@.contains_key(k) ==> #[trigger] final(self).orders@[k].screen_addr
                    == old(self).orders@[k].screen_addr,
            forall|k: usize|
                old(self).orders@.contains_key(k) ==> #[trigger] final(self).orders@[k].order
                    == old(self).orders@[k].order,
            forall|k: usize|
                old(self).orders@.contains_key(k) && !(old(self).order_queue@.len() > 0 && k
                    == old(self).order_queue@[0].0.order_id) ==> #[trigger] final(self).orders@[k]
                    == old(self).orders@[k],
            forall|i: int|
                old(actions)@.len() <= i < final(actions)@.len() ==> #[trigger] final(actions)@[i] is ToRobot,
            final(actions)@.len() >= old(actions)@.len(),
            final(actions)@.take(old(actions)@.len() as int) == old(actions)@,
            forall|q: int|
                0 <= q < NUMBER_ROBOTS && !is_idle(old(self).robot_states@, q)
                    ==> #[trigger] final(self).robot_states@[q] == old(self).robot_states@[q],
            old(self).order_queue@.len() == 0 || none_idle(old(self).robot_states@) ==> {
                &&& final(self).robot_states@ == old(self).robot_states@
                &&& final(self).orders@ == old(self).orders@
                &&& final(self).order_queue@ == old(self).order_queue@
                &&& final(actions)@ == old(actions)@
            },
            forall|r: int|
                old(self).order_queue@.len() > 0 && first_idle(old(self).robot_states@, r) ==> {
                    &&& final(self).order_queue@ == old(self).order_queue@.drop_first()
                    &&& final(self).robot_states@ == old(self).robot_states@.update(
                        r,
                        Some(
                            RobotStateForCoordinator::Busy {
                                order_id: old(self).order_queue@[0].0.order_id,
                            },
                        ),
                    )
                    &&& final(actions)@ == old(actions)@.push(
                        LeaderAction::ToRobot {
                            robot_id: r as usize,
                            message: CoordinatorMessage::OrderReceived {
                                robot_id: r as usize,
                                order: old(self).order_queue@[0].0,
                                screen_addr: old(self).order_queue@[0].1,
                            },
                        },
                    )
                },
    {
        if self.order_queue.len() == 0 {
            assert(actions@.take(actions@.len() as int) =~= actions@);
            return;
        }
        if self.first_idle_robot().is_none() {
            assert(actions@.take(actions@.len() as int) =~= actions@);
            return;
        }
        let (order, screen_addr) = self.order_queue.remove(0);
        assert(self.order_queue@ =~= old(self).order_queue@.drop_first());
        self.assign_order_to_robot(order, &screen_addr, actions);
    }

    /// Dispatches queued orders, oldest first, while some robot is idle.
    pub fn dispatch_pending(&mut self, actions: &mut Vec<LeaderAction>)
        requires
            old(self).wf(),
        ensures
            final(self).wf(),
            forall|k: usize|
                old(self).orders@.contains_key(k) && !queued(old(self).order_queue@, k)
                    ==> #[trigger] final(self).orders@[k] == old(self).orders@[k],
            forall|i: int|
                old(actions)@.len() <= i < final(actions)@.len() ==> #[trigger] final(actions)@[i] is ToRobot,
            final(actions)@.len() >= old(actions)@.len(),
            final(actions)@.take(old(actions)@.len() as int) == old(actions)@,
            final(self).containers@ == old(self).containers@,
            final(self).received_all_updated_orders@ == old(self).received_all_updated_orders@,
            final(self).coord_id == old(self).coord_id,
            forall|k: usize| #[trigger]
                final(self).orders@.contains_key(k) == old(self).orders@.contains_key(k),
            forall|k: usize|
                old(self).orders@.contains_key(k) ==> #[trigger] final(self).orders@[k].screen_addr
                    == old(self).orders@[k].screen_addr,
            forall|k: usize|
                old(self).orders@.contains_key(k) ==> #[trigger] final(self).orders@[k].order
                    == old(self).orders@[k].order,
            forall|k: usize|
                old(self).orders@.contains_key(k) ==> #[trigger] final(self).orders@[k].status
                    == old(self).orders@[k].status,
            forall|q: int|
                0 <= q < NUMBER_ROBOTS && !is_idle(old(self).robot_states@, q)
                    ==> #[trigger] final(self).robot_states@[q] == old(self).robot_states@[q],
            final(self).order_queue@.len() == 0 || none_idle(final(self).robot_states@),
    {
        assert(actions@.take(actions@.len() as int) =~= actions@);
        let ghost mut n: int = 0;
        assert(self.order_queue@ =~= old(self).order_queue@.skip(0));
        while self.order_queue.len() > 0 && self.first_idle_robot().is_some()
            invariant
                self.wf(),
                self.containers@ == old(self).containers@,
                self.received_all_updated_orders@ == old(self).received_all_updated_orders@,
                self.coord_id == old(self).coord_id,
                forall|k: usize| #[trigger]
                    self.orders@.contains_key(k) == old(self).orders@.contains_key(k),
                forall|k: usize|
                    old(self).orders@.contains_key(k) ==> #[trigger] self.orders@[k].screen_addr
                        == old(self).orders@[k].screen_addr,
                forall|k: usize|
                    old(self).orders@.contains_key(k) ==> #[trigger] self.orders@[k].order
                        == old(self).orders@[k].order,
                forall|k: usize|
                    old(self).orders@.contains_key(k) ==> #[trigger] self.orders@[k].status
                        == old(self).orders@[k].status,
                forall|q: int|
                    0 <= q < NUMBER_ROBOTS && !is_idle(old(self).robot_states@, q)
                        ==> #[trigger] self.robot_states@[q] == old(self).robot_states@[q],
                actions@.len() >= old(actions)@.len(),
                actions@.take(old(actions)@.len() as int) == old(actions)@,
                0 <= n <= old(self).order_queue@.len(),
                self.order_queue@ == old(self).order_queue@.skip(n),
                forall|k: usize|
                    old(self).orders@.contains_key(k) && !queued(old(self).order_queue@, k)
                        ==> #[trigger] self.orders@[k] == old(self).orders@[k],
                forall|i: int|
                    old(actions)@.len() <= i < actions@.len() ==> #[trigger] actions@[i] is ToRobot,
            decreases self.order_queue@.len(),
        {
            let ghost before = self.order_queue@.len();
            let ghost acts = actions@;
            let ghost prev_orders = self.orders@;
            assert(self.order_queue@[0] == old(self).order_queue@[n]);
            self.dispatch_next_pending(actions);
            proof {
                assert(self.order_queue@ =~= old(self).order_queue@.skip(n + 1));
                assert forall|k: usize|
                    old(self).orders@.contains_key(k) && !queued(old(self).order_queue@, k) implies #[trigger] self.orders@[k]
                    == old(self).orders@[k] by {
                    if k == old(self).order_queue@[n].0.order_id {
                        assert(queued(old(self).order_queue@, k));
                    }
                }
                assert forall|i: int| old(actions)@.len() <= i < actions@.len() implies #[trigger] actions@[i] is ToRobot by {
                    if i < acts.len() {
                        assert(actions@[i] == actions@.take(acts.len() as int)[i]);
                    }
                }
                n = n + 1;
            }
            assert(actions@.take(old(actions)@.len() as int) =~= actions@.take(acts.len() as int).take(
                old(actions)@.len() as int,
            ));
            assert(self.order_queue@.len() < before);
        }
    }

    /// Handles the screen's `commit`: `Pending` becomes `CommitReceived`;
    /// `CompletedButNotCommited` becomes `Completed`, and the screen is told
    /// `finished`. Any other record, or none, is left as it is.
    pub fn commit_received(&mut self, order_id: usize, actions: &mut Vec<LeaderAction>)
        requires
            old(self).wf(),
        ensures
            final(self).wf(),
            final(self).orders@ == if old(self).orders@.contains_key(order_id) {
                old(self).orders@.insert(
                    order_id,
                    restatus(
                        old(self).orders@[order_id],
                        commit_step(old(self).orders@[order_id].status),
                    ),
                )
            } else {
                old(self).orders@
            },
            final(actions)@ == if old(self).orders@.contains_key(order_id)
                && old(self).orders@[order_id].status == OrderStatus::CompletedButNotCommited {
                old(actions)@.push(
                    LeaderAction::ToScreen {
                        addr: old(self).orders@[order_id].screen_addr,
                        reply: ScreenReply::Finished,
                        order_id,
                    },
                )
            } else {
                old(actions)@
            },
            final(self).robot_states@ == old(self).robot_states@,
            final(self).containers@ == old(self).containers@,
            final(self).order_queue@ == old(self).order_queue@,
            final(self).received_all_updated_orders@ == old(self).received_all_updated_orders@,
            final(self).coord_id == old(self).coord_id,
    {
        if let Some(mut record) = self.orders.remove(&order_id) {
            let status = record.status;
            let addr = record.screen_addr;
            record.status = match status {
                OrderStatus::Pending => OrderStatus::CommitReceived,
                OrderStatus::CompletedButNotCommited => OrderStatus::Completed,
                _ => status,
            };
            self.orders.insert(order_id, record);
            assert(self.orders@ =~= old(self).orders@.insert(
                order_id,
                restatus(old(self).orders@[order_id], commit_step(old(self).orders@[order_id].status)),
            ));
            if status == OrderStatus::CompletedButNotCommited {
                Self::send_to_screen(addr, ScreenReply::Finished, order_id, actions);
            }
        }
    }

    /// Handles a robot's report that `order_id` is done: `CommitReceived` becomes
    /// `Completed`, and the screen is told `finished`; `Pending` becomes
    /// `CompletedButNotCommited`; any other record, or none, is left as it is.
    /// Then the oldest queued order goes to the lowest idle robot, if both exist.
    pub fn order_completed(&mut self, order_id: usize, actions: &mut Vec<LeaderAction>)
        requires
            old(self).wf(),
        ensures
            final(self).wf(),
            forall|k: usize| #[trigger]
                final(self).orders@.contains_key(k) == old(self).orders@.contains_key(k),
            old(self).orders@.contains_key(order_id) ==> final(self).orders@[order_id].status
                == finish_step(old(self).orders@[order_id].status),
            forall|k: usize|
                old(self).orders@.contains_key(k) && k != order_id ==> #[trigger] final(self).orders@[k].status == old(self).orders@[k].status,
            forall|k: usize|
                old(self).orders@.contains_key(k) ==> #[trigger] final(self).orders@[k].screen_addr
                    == old(self).orders@[k].screen_addr,
            final(actions)@.len() >= old(actions)@.len() + finish_reply(old(self).orders@, order_id).len(),
            final(actions)@.take((old(actions)@.len() + finish_reply(old(self).orders@, order_id).len()) as int)
                == old(actions)@ + finish_reply(old(self).orders@, order_id),
            old(self).order_queue@.len() == 0 || none_idle(old(self).robot_states@) ==> {
                &&& final(actions)@ == old(actions)@ + finish_reply(old(self).orders@, order_id)
                &&& final(self).robot_states@ == old(self).robot_states@
                &&& final(self).order_queue@ == old(self).order_queue@
            },
            forall|r: int|
                old(self).order_queue@.len() > 0 && first_idle(old(self).robot_states@, r) ==> {
                    &&& final(self).order_queue@ == old(self).order_queue@.drop_first()
                    &&& final(self).robot_states@ == old(self).robot_states@.update(
                        r,
                        Some(
                            RobotStateForCoordinator::Busy {
                                order_id: old(self).order_queue@[0].0.order_id,
                            },
                        ),
                    )
                    &&& final(actions)@ == (old(actions)@ + finish_reply(old(self).orders@, order_id)).push(
                        LeaderAction::ToRobot {
                            robot_id: r as usize,
                            message: CoordinatorMessage::OrderReceived {
                                robot_id: r as usize,
                                order: old(self).order_queue@[0].0,
                                screen_addr: old(self).order_queue@[0].1,
                            },
                        },
                    )
                },
            final(self).containers@ == old(self).containers@,
            final(self).received_all_updated_orders@ == old(self).received_all_updated_orders@,
            final(self).coord_id == old(self).coord_id,
    {
        if let Some(mut record) = self.orders.remove(&order_id) {
            let status = record.status;
            let addr = record.screen_addr;
            record.status = match status {
                OrderStatus::Pending => OrderStatus::CompletedButNotCommited,
                OrderStatus::CommitReceived => OrderStatus::Completed,
                _ => status,
            };
            self.orders.insert(order_id, record);
            assert(self.orders@ =~= old(self).orders@.insert(
                order_id,
                restatus(old(self).orders@[order_id], finish_step(old(self).orders@[order_id].status)),
            ));
            if status == OrderStatus::CommitReceived {
                Self::send_to_screen(addr, ScreenReply::Finished, order_id, actions);
            }
        }
        assert(actions@ =~= old(actions)@ + finish_reply(old(self).orders@, order_id));
        let ghost mid = actions@;
        self.dispatch_next_pending(actions);
        assert(actions@.take(mid.len() as int) =~= mid);
    }

    /// Removes every queued entry of order `order_id`, keeping the others in order.
    fn drop_from_queue(&mut self, order_id: usize)
        requires
            old(self).wf(),
        ensures
            final(self).wf(),
            final(self).order_queue@ == old(self).order_queue@.filter(
                |e: (Order, Address)| e.0.order_id != order_id,
            ),
            final(self).orders@ == old(self).orders@,
            final(self).robot_states@ == old(self).robot_states@,
            final(self).containers@ == old(self).containers@,
            final(self).received_all_updated_orders@ == old(self).received_all_updated_orders@,
            final(self).coord_id == old(self).coord_id,
    {
        let ghost q0 = self.order_queue@;
        let mut rest: Vec<(Order, Address)> = Vec::new();
        std::mem::swap(&mut self.order_queue, &mut rest);
        let mut kept: Vec<(Order, Address)> = Vec::new();
        let ghost mut n: int = 0;
        while rest.len() > 0
            invariant
                0 <= n <= q0.len(),
                rest@ == q0.skip(n),
                kept@ == q0.take(n).filter(|e: (Order, Address)| e.0.order_id != order_id),
            decreases rest.len(),
        {
            let entry = rest.remove(0);
            proof {
                assert(q0.take(n + 1).drop_last() =~= q0.take(n));
                assert(q0.take(n + 1).last() == entry);
                reveal(Seq::filter);
                assert(rest@ =~= q0.skip(n + 1));
                n = n + 1;
            }
            if entry.0.id() != order_id {
                kept.push(entry);
            }
        }
        assert(q0.take(n) =~= q0);
        self.order_queue = kept;
    }

    /// Aborts order `order_id`: drops its record and every queued entry of it;
    /// tells the robot the record names, which becomes idle and gives its
    /// container back; and replies `abort` to its screen. For an unknown order
    /// only the queue changes.
    pub fn abort_order_by_id(&mut self, order_id: usize, actions: &mut Vec<LeaderAction>)
        requires
            old(self).wf(),
        ensures
            final(self).wf(),
            aborted(old(self), final(self), old(actions)@, final(actions)@, order_id),
            final(self).received_all_updated_orders@ == old(self).received_all_updated_orders@,
            final(self).coord_id == old(self).coord_id,
    {
        self.drop_from_queue(order_id);
        match self.orders.remove(&order_id) {
            Some(record) => {
                let addr = record.screen_addr;
                if let Some(robot_id) = record.robot_id {
                    Self::send_abort_message_to_robot(record.order, robot_id, actions);
                    self.free_robot_after_abort(robot_id);
                }
                Self::send_to_screen(addr, ScreenReply::Abort, order_id, actions);
            },
            None => {
                assert(self.orders@ =~= old(self).orders@.remove(order_id));
            },
        }
    }

    /// Aborts `order`, as `abort_order_by_id` does for its id.
    pub fn abort_order(&mut self, order: &Order, actions: &mut Vec<LeaderAction>)
        requires
            old(self).wf(),
        ensures
            final(self).wf(),
            aborted(old(self), final(self), old(actions)@, final(actions)@, order.order_id),
            final(self).received_all_updated_orders@ == old(self).received_all_updated_orders@,
            final(self).coord_id == old(self).coord_id,
    {
        self.abort_order_by_id(order.id(), actions);
    }

    /// Gives order `order_id` to another robot when it is still owed work
    /// (`Pending` or `CommitReceived`), first telling its screen `keepalive`.
    pub fn reassign_order(&mut self, order_id: usize, actions: &mut Vec<LeaderAction>)
        requires
            old(self).wf(),
        ensures
            final(self).wf(),
            final(self).received_all_updated_orders@ == old(self).received_all_updated_orders@,
            final(self).coord_id == old(self).coord_id,
            final(self).containers@ == old(self).containers@,
            final(actions)@.len() >= old(actions)@.len(),
            final(actions)@.take(old(actions)@.len() as int) == old(actions)@,
            forall|q: int|
                0 <= q < NUMBER_ROBOTS && !is_idle(old(self).robot_states@, q)
                    ==> #[trigger] final(self).robot_states@[q] == old(self).robot_states@[q],
            forall|k: usize| #[trigger]
                final(self).orders@.contains_key(k) == old(self).orders@.contains_key(k),
            forall|k: usize|
                old(self).orders@.contains_key(k) ==> #[trigger] final(self).orders@[k].status
                    == old(self).orders@[k].status,
            forall|k: usize|
                old(self).orders@.contains_key(k) ==> #[trigger] final(self).orders@[k].screen_addr
                    == old(self).orders@[k].screen_addr,
            !owed_work(old(self).orders@, order_id) ==> {
                &&& final(actions)@ == old(actions)@
                &&& final(self).robot_states@ == old(self).robot_states@
                &&& final(self).orders@ == old(self).orders@
                &&& final(self).order_queue@ == old(self).order_queue@
            },
            owed_work(old(self).orders@, order_id) ==> {
                let keepalive = LeaderAction::ToScreen {
                    addr: old(self).orders@[order_id].screen_addr,
                    reply: ScreenReply::Keepalive,
                    order_id,
                };
                &&& final(actions)@.len() > old(actions)@.len()
                &&& final(actions)@[old(actions)@.len() as int] == keepalive
                &&& forall|r: int|
                    first_idle(old(self).robot_states@, r) ==> {
                        &&& final(self).robot_states@ == old(self).robot_states@.update(
                            r,
                            Some(RobotStateForCoordinator::Busy { order_id }),
                        )
                        &&& final(self).orders@[order_id].robot_id == Some(r as usize)
                        &&& final(actions)@.len() == old(actions)@.len() + 2
                        &&& final(actions)@.drop_last() == old(actions)@.push(keepalive)
                        &&& hands_order(
                            final(actions)@.last(),
                            r as usize,
                            old(self).orders@[order_id].order@,
                            old(self).orders@[order_id].screen_addr,
                        )
                    }
                &&& none_idle(old(self).robot_states@) ==> {
                    &&& final(actions)@ == old(actions)@.push(keepalive)
                    &&& final(self).robot_states@ == old(self).robot_states@
                    &&& final(self).order_queue@.len() == old(self).order_queue@.len() + 1
                }
            },
    {
        let (order, addr) = match self.orders.get(&order_id) {
            Some(record) => {
                if record.status != OrderStatus::Pending && record.status
                    != OrderStatus::CommitReceived {
                    return;
                }
                (record.order.duplicate(), record.screen_addr)
            },
            None => {
                return;
            },
        };
        Self::send_to_screen(addr, ScreenReply::Keepalive, order_id, actions);
        let ghost mid = actions@;
        self.assign_order_to_robot(order, &addr, actions);
        assert(actions@.take(mid.len() as int)[old(actions)@.len() as int] == mid[old(actions)@.len() as int]);
        assert forall|r: int| first_idle(old(self).robot_states@, r) implies actions@.drop_last() == mid by {
            assert(actions@.drop_last() =~= mid);
        }
        assert(actions@.take(old(actions)@.len() as int) =~= old(actions)@) by {
            assert(mid.take(old(actions)@.len() as int) =~= old(actions)@);
            assert(actions@.take(old(actions)@.len() as int) =~= actions@.take(mid.len() as int).take(old(actions)@.len() as int));
        }
    }

    /// Handles the loss of robot `robot_id`: frees its container, records it
    /// disconnected, and hands its order, if any, to another robot.
    pub fn fix_order(&mut self, robot_id: usize, actions: &mut Vec<LeaderAction>)
        requires
            old(self).wf(),
        ensures
            final(self).wf(),
            robot_id < NUMBER_ROBOTS && old(self).robot_states@[robot_id as int] is Some
                ==> final(self).robot_states@[robot_id as int] == Some(
                RobotStateForCoordinator::Disconnected,
            ),
            robot_id < NUMBER_ROBOTS && old(self).robot_states@[robot_id as int] is Some ==> forall|i: int|
                0 <= i < NUMBER_OF_FLAVORS ==> #[trigger] final(self).containers@[i] == if holds_flavor(
                    old(self).robot_states@[robot_id as int],
                    all_flavors()[i],
                ) {
                    Container { quantity: old(self).containers@[i].quantity, in_use_by: None }
                } else {
                    old(self).containers@[i]
                },
            forall|q: int|
                0 <= q < NUMBER_ROBOTS && q != robot_id && !is_idle(old(self).robot_states@, q)
                    ==> #[trigger] final(self).robot_states@[q] == old(self).robot_states@[q],
            robot_id < NUMBER_ROBOTS ==> forall|i: int|
                0 <= i < NUMBER_OF_FLAVORS ==> (#[trigger] final(self).containers@[i]).in_use_by
                    != Some(robot_id),
            final(self).received_all_updated_orders@ == old(self).received_all_updated_orders@,
            final(self).coord_id == old(self).coord_id,
            forall|k: usize| #[trigger]
                final(self).orders@.contains_key(k) == old(self).orders@.contains_key(k),
            forall|k: usize|
                old(self).orders@.contains_key(k) ==> #[trigger] final(self).orders@[k].status
                    == old(self).orders@[k].status,
            !(robot_id < NUMBER_ROBOTS && working_on(old(self).robot_states@[robot_id as int]) is Some
                && owed_work(old(self).orders@, working_on(old(self).robot_states@[robot_id as int])->0))
                ==> final(actions)@ == old(actions)@,
            robot_id < NUMBER_ROBOTS ==> match working_on(old(self).robot_states@[robot_id as int]) {
                Some(o) => owed_work(old(self).orders@, o) ==> {
                    let keepalive = LeaderAction::ToScreen {
                        addr: old(self).orders@[o].screen_addr,
                        reply: ScreenReply::Keepalive,
                        order_id: o,
                    };
                    &&& final(actions)@.len() > old(actions)@.len()
                    &&& final(actions)@[old(actions)@.len() as int] == keepalive
                    &&& forall|r: int|
                        first_idle(old(self).robot_states@, r) ==> {
                            &&& final(self).orders@[o].robot_id == Some(r as usize)
                            &&& final(self).robot_states@[r] == Some(
                                RobotStateForCoordinator::Busy { order_id: o },
                            )
                            &&& final(actions)@.len() == old(actions)@.len() + 2
                            &&& final(actions)@.drop_last() == old(actions)@.push(keepalive)
                            &&& hands_order(
                                final(actions)@.last(),
                                r as usize,
                                old(self).orders@[o].order@,
                                old(self).orders@[o].screen_addr,
                            )
                        }
                    &&& none_idle(old(self).robot_states@) ==> final(actions)@ == old(actions)@.push(
                        keepalive,
                    )
                },
                None => true,
            },
    {
        if robot_id >= NUMBER_ROBOTS {
            return;
        }
        let ghost before = self.robot_states@;
        match self.robot_states[robot_id] {
            Some(state) => {
                self.unassign(robot_id);
                self.set_robot_state(robot_id, RobotStateForCoordinator::Disconnected);
                proof {
                    assert forall|i: int|
                        0 <= i < NUMBER_OF_FLAVORS implies (#[trigger] self.containers@[i]).in_use_by
                        != Some(robot_id) by {
                        if self.containers@[i].in_use_by == Some(robot_id) {
                            assert(holds_flavor(self.robot_states@[robot_id as int], all_flavors()[i]));
                        }
                    }
                }
                proof {
                    assert forall|r: int| first_idle(before, r) && !(state is Idle) implies first_idle(
                        self.robot_states@,
                        r,
                    ) by {
                        assert(r != robot_id);
                        assert forall|j: int| 0 <= j < r implies !is_idle(self.robot_states@, j) by {
                            assert(!is_idle(before, j));
                        }
                    }
                    assert(none_idle(before) && !(state is Idle) ==> none_idle(self.robot_states@)) by {
                        if none_idle(before) && !(state is Idle) {
                            assert forall|j: int| 0 <= j < self.robot_states@.len() implies !is_idle(
                                self.robot_states@,
                                j,
                            ) by {
                                assert(!is_idle(before, j));
                            }
                        }
                    }
                }
                match state {
                    RobotStateForCoordinator::Busy { order_id } => {
                        self.reassign_order(order_id, actions);
                    },
                    RobotStateForCoordinator::UsingContainer { order_id, .. } => {
                        self.reassign_order(order_id, actions);
                    },
                    _ => {},
                }
                proof {
                    assert(self.robot_states@[robot_id as int] != Some(RobotStateForCoordinator::Idle));
                    assert forall|i: int|
                        0 <= i < NUMBER_OF_FLAVORS implies (#[trigger] self.containers@[i]).in_use_by
                        != Some(robot_id) by {
                        if self.containers@[i].in_use_by == Some(robot_id) {
                            assert(holds_flavor(self.robot_states@[robot_id as int], all_flavors()[i]));
                        }
                    }
                }
            },
            None => {
                proof {
                    assert forall|i: int|
                        0 <= i < NUMBER_OF_FLAVORS implies (#[trigger] self.containers@[i]).in_use_by
                        != Some(robot_id) by {
                        if self.containers@[i].in_use_by == Some(robot_id) {
                            assert(holds_flavor(self.robot_states@[robot_id as int], all_flavors()[i]));
                        }
                    }
                }
            },
        }
    }

    /// Decides an access request of robot `robot_id` for the flavors `flavors`
    /// (each with the amount needed), replying to `addr`; returns whether access
    /// was given.
    ///
    /// A robot that already holds a container is told that container again. Else
    /// the first requested flavor whose container is free is considered: a robot
    /// busy with an order gets it, and its amount is taken, if enough is left;
    /// if not enough is left the robot's order is aborted.
    #[verifier::spinoff_prover]
    pub fn check_if_flavor_available(
        &mut self,
        robot_id: usize,
        flavors: &Vec<(IceCreamFlavor, u32)>,
        addr: Address,
        actions: &mut Vec<LeaderAction>,
    ) -> (r: bool)
        requires
            old(self).wf(),
        ensures
            final(self).wf(),
            final(self).received_all_updated_orders@ == old(self).received_all_updated_orders@,
            final(self).coord_id == old(self).coord_id,
            match robot_at(old(self).robot_states@, robot_id) {
                Some(RobotStateForCoordinator::UsingContainer { flavor, .. }) => {
                    &&& r
                    &&& final(actions)@ == old(actions)@.push(
                        LeaderAction::ToAddress {
                            addr,
                            message: CoordinatorMessage::AccessAllowed { flavor },
                        },
                    )
                    &&& final(self).robot_states@ == old(self).robot_states@
                    &&& final(self).containers@ == old(self).containers@
                    &&& final(self).orders@ == old(self).orders@
                    &&& final(self).order_queue@ == old(self).order_queue@
                },
                Some(RobotStateForCoordinator::Busy { order_id }) => {
                    &&& forall|k: int|
                        #![trigger first_free(old(self).containers@, flavors@, k)]
                        first_free(old(self).containers@, flavors@, k) ==> {
                            let f = flavors@[k].0;
                            let amount = flavors@[k].1;
                            let c = container_of(old(self).containers@, f);
                            if amount <= c.quantity {
                                &&& r
                                &&& final(self).containers@ == old(self).containers@.update(
                                    f.spec_index() as int,
                                    Container {
                                        quantity: (c.quantity - amount) as u32,
                                        in_use_by: Some(robot_id),
                                    },
                                )
                                &&& final(self).robot_states@ == old(self).robot_states@.update(
                                    robot_id as int,
                                    Some(
                                        RobotStateForCoordinator::UsingContainer {
                                            order_id,
                                            flavor: f,
                                        },
                                    ),
                                )
                                &&& final(self).orders@ == old(self).orders@
                                &&& final(self).order_queue@ == old(self).order_queue@
                                &&& final(actions)@ == old(actions)@.push(
                                    LeaderAction::ToAddress {
                                        addr,
                                        message: CoordinatorMessage::AccessAllowed { flavor: f },
                                    },
                                )
                            } else {
                                &&& !r
                                &&& aborted(old(self), final(self), old(actions)@, final(actions)@, order_id)
                                &&& old(self).orders@.contains_key(order_id) && old(self).orders@[order_id].robot_id
                                    == Some(robot_id) ==> {
                                    &&& final(self).robot_states@ == old(self).robot_states@.update(
                                        robot_id as int,
                                        Some(RobotStateForCoordinator::Idle),
                                    )
                                    &&& final(self).containers@ == old(self).containers@
                                    &&& final(actions)@ == old(actions)@.push(
                                        LeaderAction::ToRobot {
                                            robot_id,
                                            message: CoordinatorMessage::OrderAborted {
                                                robot_id,
                                                order: old(self).orders@[order_id].order,
                                            },
                                        },
                                    ).push(
                                        LeaderAction::ToScreen {
                                            addr: old(self).orders@[order_id].screen_addr,
                                            reply: ScreenReply::Abort,
                                            order_id,
                                        },
                                    )
                                }
                            }
                        }
                    &&& none_free(old(self).containers@, flavors@) ==> {
                        &&& !r
                        &&& final(actions)@ == old(actions)@
                        &&& final(self).robot_states@ == old(self).robot_states@
                        &&& final(self).containers@ == old(self).containers@
                        &&& final(self).orders@ == old(self).orders@
                        &&& final(self).order_queue@ == old(self).order_queue@
                    }
                },
                _ => {
                    &&& !r
                    &&& final(actions)@ == old(actions)@
                    &&& final(self).robot_states@ == old(self).robot_states@
                    &&& final(self).containers@ == old(self).containers@
                    &&& final(self).orders@ == old(self).orders@
                    &&& final(self).order_queue@ == old(self).order_queue@
                },
            },
    {
        if let Some(flavor) = self.check_robot_has_container(robot_id) {
            actions.push(
                LeaderAction::ToAddress { addr, message: CoordinatorMessage::AccessAllowed { flavor } },
            );
            return true;
        }
        if robot_id >= NUMBER_ROBOTS {
            return false;
        }
        let order_id = match self.robot_states[robot_id] {
            Some(RobotStateForCoordinator::Busy { order_id }) => order_id,
            _ => {
                return false;
            },
        };
        let mut i: usize = 0;
        while i < flavors.len()
            invariant
                self.wf(),
                self.containers@ == old(self).containers@,
                self.robot_states@ == old(self).robot_states@,
                self.orders@ == old(self).orders@,
                self.order_queue@ == old(self).order_queue@,
                self.received_all_updated_orders@ == old(self).received_all_updated_orders@,
                self.coord_id == old(self).coord_id,
                actions@ == old(actions)@,
                robot_id < NUMBER_ROBOTS,
                self.robot_states@[robot_id as int] == Some(
                    RobotStateForCoordinator::Busy { order_id },
                ),
                0 <= i <= flavors@.len(),
                forall|j: int| 0 <= j < i ==> !is_free(self.containers@, flavors@, j),
            decreases flavors.len() - i,
        {
            let (flavor, amount) = flavors[i];
            let idx = flavor.index();
            if self.containers[idx].is_available() {
                proof {
                    assert forall|k: int| first_free(old(self).containers@, flavors@, k) implies k
                        == i by {
                        if k < i {
                        } else if k > i {
                            assert(!is_free(old(self).containers@, flavors@, i as int));
                        }
                    }
                }
                if self.containers[idx].quantity() < amount {
                    self.abort_order_by_id(order_id, actions);
                    proof {
                        if old(self).orders@.contains_key(order_id) && old(self).orders@[order_id].robot_id
                            == Some(robot_id) {
                            assert forall|j: int| 0 <= j < NUMBER_OF_FLAVORS implies self.containers@[j]
                                == old(self).containers@[j] by {
                                assert(!holds_flavor(old(self).robot_states@[robot_id as int], all_flavors()[j]));
                            }
                            assert(self.containers@ =~= old(self).containers@);
                        }
                    }
                    return false;
                }
                self.update_robot_state_to_using_container(robot_id, flavor, amount);
                actions.push(
                    LeaderAction::ToAddress {
                        addr,
                        message: CoordinatorMessage::AccessAllowed { flavor },
                    },
                );
                return true;
            }
            i = i + 1;
        }
        false
    }

    /// After a change of leader: once every other robot has said what it is
    /// doing, the count starts over and the queued orders are dispatched.
    fn count_report(&mut self, actions: &mut Vec<LeaderAction>)
        requires
            old(self).wf(),
        ensures
            final(self).wf(),
            forall|k: usize|
                old(self).orders@.contains_key(k) && !queued(old(self).order_queue@, k)
                    ==> #[trigger] final(self).orders@[k] == old(self).orders@[k],
            forall|i: int|
                old(actions)@.len() <= i < final(actions)@.len() ==> #[trigger] final(actions)@[i] is ToRobot,
            final(actions)@.len() >= old(actions)@.len(),
            final(actions)@.take(old(actions)@.len() as int) == old(actions)@,
            final(self).containers@ == old(self).containers@,
            final(self).coord_id == old(self).coord_id,
            old(self).received_all_updated_orders@.len() < NUMBER_ROBOTS - 1 ==> {
                &&& final(self).received_all_updated_orders@ == old(self).received_all_updated_orders@
                &&& final(self).robot_states@ == old(self).robot_states@
                &&& final(self).orders@ == old(self).orders@
                &&& final(self).order_queue@ == old(self).order_queue@
                &&& final(actions)@ == old(actions)@
            },
            old(self).received_all_updated_orders@.len() >= NUMBER_ROBOTS - 1 ==> {
                &&& final(self).received_all_updated_orders@.len() == 0
                &&& final(self).order_queue@.len() == 0 || none_idle(final(self).robot_states@)
            },
            forall|k: usize| #[trigger]
                final(self).orders@.contains_key(k) == old(self).orders@.contains_key(k),
            forall|k: usize|
                old(self).orders@.contains_key(k) ==> #[trigger] final(self).orders@[k].screen_addr
                    == old(self).orders@[k].screen_addr,
            forall|k: usize|
                old(self).orders@.contains_key(k) ==> #[trigger] final(self).orders@[k].order
                    == old(self).orders@[k].order,
            forall|k: usize|
                old(self).orders@.contains_key(k) ==> #[trigger] final(self).orders@[k].status
                    == old(self).orders@[k].status,
            forall|q: int|
                0 <= q < NUMBER_ROBOTS && !is_idle(old(self).robot_states@, q)
                    ==> #[trigger] final(self).robot_states@[q] == old(self).robot_states@[q],
    {
        if self.received_all_updated_orders.len() >= NUMBER_ROBOTS - 1 {
            self.received_all_updated_orders = Vec::new();
            self.dispatch_pending(actions);
        } else {
            assert(actions@.take(actions@.len() as int) =~= actions@);
        }
    }

    /// Handles a two-phase-commit message from a screen.
    ///
    /// `prepare` (an order request) registers the order as pending, replies
    /// `ready` and dispatches the order; `commit` advances the record as
    /// `commit_received` does; `abort` drops the record as `abort_order` does.
    pub fn handle_screen_message(&mut self, msg: ScreenMessage, actions: &mut Vec<LeaderAction>)
        requires
            old(self).wf(),
        ensures
            final(self).wf(),
            match msg {
                ScreenMessage::OrderRequest { order, screen_addr } => {
                    &&& final(self).orders@.contains_key(order.order_id)
                    &&& final(self).orders@[order.order_id].status == OrderStatus::Pending
                    &&& final(self).orders@[order.order_id].screen_addr == screen_addr
                    &&& final(actions)@.len() > old(actions)@.len()
                    &&& final(actions)@[old(actions)@.len() as int] == (LeaderAction::ToScreen {
                        addr: screen_addr,
                        reply: ScreenReply::Ready,
                        order_id: order.order_id,
                    })
                    &&& forall|r: int|
                        first_idle(old(self).robot_states@, r) ==> final(self).robot_states@
                            == old(self).robot_states@.update(
                            r,
                            Some(RobotStateForCoordinator::Busy { order_id: order.order_id }),
                        ) && final(self).orders@[order.order_id].robot_id == Some(r as usize)
                    &&& none_idle(old(self).robot_states@) ==> final(self).order_queue@.len()
                        == old(self).order_queue@.len() + 1 && final(self).robot_states@ == old(self).robot_states@
                    &&& forall|k: usize|
                        old(self).orders@.contains_key(k) && k != order.order_id ==> #[trigger] final(self).orders@.contains_key(k)
                            && final(self).orders@[k].status == old(self).orders@[k].status
                    &&& final(self).containers@ == old(self).containers@
                },
                ScreenMessage::CommitReceived { order } => {
                    &&& final(self).orders@ == if old(self).orders@.contains_key(order.order_id) {
                        old(self).orders@.insert(
                            order.order_id,
                            restatus(
                                old(self).orders@[order.order_id],
                                commit_step(old(self).orders@[order.order_id].status),
                            ),
                        )
                    } else {
                        old(self).orders@
                    }
                    &&& final(self).robot_states@ == old(self).robot_states@
                    &&& final(self).containers@ == old(self).containers@
                    &&& final(self).order_queue@ == old(self).order_queue@
                    &&& final(actions)@ == if old(self).orders@.contains_key(order.order_id)
                        && old(self).orders@[order.order_id].status == OrderStatus::CompletedButNotCommited {
                        old(actions)@.push(
                            LeaderAction::ToScreen {
                                addr: old(self).orders@[order.order_id].screen_addr,
                                reply: ScreenReply::Finished,
                                order_id: order.order_id,
                            },
                        )
                    } else {
                        old(actions)@
                    }
                },
                ScreenMessage::Abort { order } => aborted(
                    old(self),
                    final(self),
                    old(actions)@,
                    final(actions)@,
                    order.order_id,
                ),
            },
    {
        match msg {
            ScreenMessage::OrderRequest { order, screen_addr } => {
                self.register_order(screen_addr, &order);
                proof {
                    assert forall|k: usize|
                        old(self).orders@.contains_key(k) && k != order.order_id implies self.orders@.contains_key(k)
                        && self.orders@[k].status == old(self).orders@[k].status by {
                        assert(old(self).orders@.remove(order.order_id).contains_key(k));
                        assert(self.orders@.remove(order.order_id)[k] == self.orders@[k]);
                        assert(old(self).orders@.remove(order.order_id)[k] == old(self).orders@[k]);
                    }
                }
                Self::send_to_screen(screen_addr, ScreenReply::Ready, order.id(), actions);
                let ghost mid = actions@;
                let ghost id = order.order_id;
                self.assign_order_to_robot(order, &screen_addr, actions);
                assert(actions@.take(mid.len() as int)[old(actions)@.len() as int] == mid[old(actions)@.len() as int]);
                assert(self.orders@.contains_key(id));
            },
            ScreenMessage::CommitReceived { order } => {
                self.commit_received(order.id(), actions);
            },
            ScreenMessage::Abort { order } => {
                self.abort_order(&order, actions);
            },
        }
    }

    /// Handles a message from a robot.
    ///
    /// An access request is decided by `check_if_flavor_available`, with
    /// `AccessDenied` when no access was given; a release frees the container and
    /// is acknowledged; a finished order frees its robot, advances the record as
    /// `order_completed` does and dispatches the oldest queued order; an order in
    /// process (sent after a change of leader) is registered again under its
    /// robot; a robot reported lost is handled by `fix_order`.
    pub fn handle_robot_response(&mut self, msg: RobotResponse, actions: &mut Vec<LeaderAction>)
        requires
            old(self).wf(),
        ensures
            final(self).wf(),
            final(self).coord_id == old(self).coord_id,
            match msg {
                RobotResponse::AccessRequest { robot_id, flavors, addr } => match robot_at(
                    old(self).robot_states@,
                    robot_id,
                ) {
                    Some(RobotStateForCoordinator::UsingContainer { flavor, .. }) => {
                        &&& final(actions)@ == old(actions)@.push(
                            LeaderAction::ToAddress {
                                addr,
                                message: CoordinatorMessage::AccessAllowed { flavor },
                            },
                        )
                        &&& final(self).robot_states@ == old(self).robot_states@
                        &&& final(self).containers@ == old(self).containers@
                        &&& final(self).orders@ == old(self).orders@
                        &&& final(self).order_queue@ == old(self).order_queue@
                    },
                    Some(RobotStateForCoordinator::Busy { order_id }) => {
                        &&& forall|k: int|
                            #![trigger first_free(old(self).containers@, flavors@, k)]
                            first_free(old(self).containers@, flavors@, k) ==> {
                                let f = flavors@[k].0;
                                let c = container_of(old(self).containers@, f);
                                if flavors@[k].1 <= c.quantity {
                                    &&& final(self).containers@ == old(self).containers@.update(
                                        f.spec_index() as int,
                                        Container {
                                            quantity: (c.quantity - flavors@[k].1) as u32,
                                            in_use_by: Some(robot_id),
                                        },
                                    )
                                    &&& final(self).robot_states@ == old(self).robot_states@.update(
                                        robot_id as int,
                                        Some(
                                            RobotStateForCoordinator::UsingContainer {
                                                order_id,
                                                flavor: f,
                                            },
                                        ),
                                    )
                                    &&& final(self).orders@ == old(self).orders@
                                    &&& final(self).order_queue@ == old(self).order_queue@
                                    &&& final(actions)@ == old(actions)@.push(
                                        LeaderAction::ToAddress {
                                            addr,
                                            message: CoordinatorMessage::AccessAllowed { flavor: f },
                                        },
                                    )
                                } else {
                                    &&& final(actions)@.len() > 0
                                    &&& is_denial(final(actions)@.last(), addr)
                                    &&& aborted(
                                        old(self),
                                        final(self),
                                        old(actions)@,
                                        final(actions)@.drop_last(),
                                        order_id,
                                    )
                                }
                            }
                        &&& none_free(old(self).containers@, flavors@) ==> {
                            &&& final(actions)@.len() == old(actions)@.len() + 1
                            &&& final(actions)@.drop_last() == old(actions)@
                            &&& is_denial(final(actions)@.last(), addr)
                            &&& final(self).robot_states@ == old(self).robot_states@
                            &&& final(self).containers@ == old(self).containers@
                            &&& final(self).orders@ == old(self).orders@
                            &&& final(self).order_queue@ == old(self).order_queue@
                        }
                    },
                    _ => {
                        &&& final(actions)@.len() == old(actions)@.len() + 1
                        &&& final(actions)@.drop_last() == old(actions)@
                        &&& is_denial(final(actions)@.last(), addr)
                        &&& final(self).robot_states@ == old(self).robot_states@
                        &&& final(self).containers@ == old(self).containers@
                        &&& final(self).orders@ == old(self).orders@
                        &&& final(self).order_queue@ == old(self).order_queue@
                    },
                },
                RobotResponse::ReleaseRequest { robot_id, flavor, addr } => {
                    &&& robot_id < NUMBER_ROBOTS && holds_flavor(
                        old(self).robot_states@[robot_id as int],
                        flavor,
                    ) ==> {
                        &&& final(self).containers@ == old(self).containers@.update(
                            flavor.spec_index() as int,
                            Container {
                                quantity: container_of(old(self).containers@, flavor).quantity,
                                in_use_by: None,
                            },
                        )
                        &&& final(self).robot_states@ == old(self).robot_states@.update(
                            robot_id as int,
                            Some(
                                RobotStateForCoordinator::Busy {
                                    order_id: working_on(old(self).robot_states@[robot_id as int])->0,
                                },
                            ),
                        )
                    }
                    &&& !(robot_id < NUMBER_ROBOTS && holds_flavor(
                        old(self).robot_states@[robot_id as int],
                        flavor,
                    )) ==> final(self).robot_states@ == old(self).robot_states@
                        && final(self).containers@ == old(self).containers@
                    &&& final(self).orders@ == old(self).orders@
                    &&& final(self).order_queue@ == old(self).order_queue@
                    &&& final(self).received_all_updated_orders@ == old(self).received_all_updated_orders@
                    &&& final(actions)@ == old(actions)@.push(
                        LeaderAction::ToAddress { addr, message: CoordinatorMessage::ACK },
                    )
                },
                RobotResponse::OrderFinished { robot_id, order } => {
                    let id = order.order_id;
                    let working = robot_id < NUMBER_ROBOTS && working_on(
                        old(self).robot_states@[robot_id as int],
                    ) == Some(id);
                    let freed = if working {
                        old(self).robot_states@.update(robot_id as int, Some(RobotStateForCoordinator::Idle))
                    } else {
                        old(self).robot_states@
                    };
                    let reply = finish_reply(old(self).orders@, id);
                    &&& forall|k: usize| #[trigger]
                        final(self).orders@.contains_key(k) == old(self).orders@.contains_key(k)
                    &&& old(self).orders@.contains_key(id) ==> final(self).orders@[id].status
                        == finish_step(old(self).orders@[id].status)
                    &&& forall|k: usize|
                        old(self).orders@.contains_key(k) && k != id ==> #[trigger] final(self).orders@[k].status
                            == old(self).orders@[k].status
                    &&& final(actions)@.len() >= old(actions)@.len() + reply.len()
                    &&& final(actions)@.take((old(actions)@.len() + reply.len()) as int)
                        == old(actions)@ + reply
                    &&& working ==> forall|i: int|
                        0 <= i < NUMBER_OF_FLAVORS ==> #[trigger] final(self).containers@[i] == if holds_flavor(
                            old(self).robot_states@[robot_id as int],
                            all_flavors()[i],
                        ) {
                            Container { quantity: old(self).containers@[i].quantity, in_use_by: None }
                        } else {
                            old(self).containers@[i]
                        }
                    &&& !working ==> final(self).containers@ == old(self).containers@
                    &&& old(self).order_queue@.len() == 0 || none_idle(freed) ==> {
                        &&& final(self).robot_states@ == freed
                        &&& final(self).order_queue@ == old(self).order_queue@
                        &&& final(actions)@ == old(actions)@ + reply
                    }
                    &&& forall|q: int|
                        old(self).order_queue@.len() > 0 && first_idle(freed, q) ==> {
                            &&& final(self).order_queue@ == old(self).order_queue@.drop_first()
                            &&& final(self).robot_states@ == freed.update(
                                q,
                                Some(
                                    RobotStateForCoordinator::Busy {
                                        order_id: old(self).order_queue@[0].0.order_id,
                                    },
                                ),
                            )
                            &&& final(actions)@ == (old(actions)@ + reply).push(
                                LeaderAction::ToRobot {
                                    robot_id: q as usize,
                                    message: CoordinatorMessage::OrderReceived {
                                        robot_id: q as usize,
                                        order: old(self).order_queue@[0].0,
                                        screen_addr: old(self).order_queue@[0].1,
                                    },
                                },
                            )
                        }
                },
                RobotResponse::OrderInProcess { robot_id, order, addr, screen_addr } => {
                    let id = order.order_id;
                    let ready = LeaderAction::ToScreen { addr: screen_addr, reply: ScreenReply::Ready, order_id: id };
                    &&& final(self).orders@.contains_key(id)
                    &&& final(self).orders@[id].screen_addr == screen_addr
                    &&& final(self).orders@[id].status == OrderStatus::Pending
                    &&& final(self).orders@[id].order@ == order@
                    &&& forall|k: usize|
                        old(self).orders@.contains_key(k) && k != id ==> #[trigger] final(self).orders@.contains_key(k)
                            && final(self).orders@[k].status == old(self).orders@[k].status
                    &&& final(actions)@.len() > old(actions)@.len()
                    &&& final(actions)@[old(actions)@.len() as int] == ready
                    &&& forall|i: int|
                        old(actions)@.len() < i < final(actions)@.len() ==> #[trigger] final(actions)@[i] is ToRobot
                    &&& robot_at(old(self).robot_states@, robot_id) is Some ==> {
                        &&& final(self).robot_states@[robot_id as int] == Some(
                            RobotStateForCoordinator::Busy { order_id: id },
                        )
                        &&& final(self).orders@[id].robot_id == Some(robot_id)
                        &&& old(self).received_all_updated_orders@.len() + 1 < NUMBER_ROBOTS - 1 ==> {
                            &&& final(self).received_all_updated_orders@ == old(self).received_all_updated_orders@.push(robot_id)
                            &&& final(actions)@ == old(actions)@.push(ready)
                        }
                        &&& old(self).received_all_updated_orders@.len() + 1 >= NUMBER_ROBOTS - 1
                            ==> final(self).received_all_updated_orders@.len() == 0
                    }
                },
                RobotResponse::ReassignOrder { robot_id } => {
                    &&& robot_id < NUMBER_ROBOTS ==> forall|i: int|
                        0 <= i < NUMBER_OF_FLAVORS ==> (#[trigger] final(self).containers@[i]).in_use_by != Some(robot_id)
                    &&& forall|k: usize| #[trigger]
                        final(self).orders@.contains_key(k) == old(self).orders@.contains_key(k)
                    &&& forall|k: usize|
                        old(self).orders@.contains_key(k) ==> #[trigger] final(self).orders@[k].status
                            == old(self).orders@[k].status
                },
                RobotResponse::NoOrderInProcess { robot_id, addr } => {
                    &&& old(self).received_all_updated_orders@.len() + 1 < NUMBER_ROBOTS - 1 ==> {
                        &&& final(self).received_all_updated_orders@ == old(self).received_all_updated_orders@.push(robot_id)
                        &&& final(self).robot_states@ == old(self).robot_states@
                        &&& final(self).orders@ == old(self).orders@
                        &&& final(actions)@ == old(actions)@
                    }
                    &&& old(self).received_all_updated_orders@.len() + 1 >= NUMBER_ROBOTS - 1 ==> {
                        &&& final(self).received_all_updated_orders@.len() == 0
                        &&& final(self).order_queue@.len() == 0 || none_idle(final(self).robot_states@)
                    }
                    &&& forall|k: usize| #[trigger]
                        final(self).orders@.contains_key(k) == old(self).orders@.contains_key(k)
                    &&& forall|k: usize|
                        old(self).orders@.contains_key(k) ==> #[trigger] final(self).orders@[k].status
                            == old(self).orders@[k].status
                    &&& final(self).containers@ == old(self).containers@
                },
            },
    {
        match msg {
            RobotResponse::AccessRequest { robot_id, flavors, addr } => {
                let given = self.check_if_flavor_available(robot_id, &flavors, addr, actions);
                let ghost mid = actions@;
                if !given {
                    Self::send_denied_access_to_robot(addr, actions);
                    assert(actions@.drop_last() =~= mid);
                }
            },
            RobotResponse::ReleaseRequest { robot_id, flavor, addr } => {
                self.release_access_to_flavor(robot_id, flavor);
                actions.push(LeaderAction::ToAddress { addr, message: CoordinatorMessage::ACK });
            },
            RobotResponse::OrderFinished { robot_id, order } => {
                let order_id = order.id();
                if robot_id < NUMBER_ROBOTS {
                    let working = match self.robot_states[robot_id] {
                        Some(RobotStateForCoordinator::Busy { order_id: o }) => o == order_id,
                        Some(RobotStateForCoordinator::UsingContainer { order_id: o, .. }) => o
                            == order_id,
                        _ => false,
                    };
                    if working {
                        self.free_robot_after_abort(robot_id);
                        proof {
                            lemma_first_idle_exists(self.robot_states@, robot_id as int);
                            assert forall|i: int|
                                0 <= i < NUMBER_OF_FLAVORS implies (#[trigger] self.containers@[i]).in_use_by
                                != Some(robot_id) by {
                                if self.containers@[i].in_use_by == Some(robot_id) {
                                    assert(holds_flavor(
                                        self.robot_states@[robot_id as int],
                                        all_flavors()[i],
                                    ));
                                }
                            }
                        }
                    }
                }
                self.order_completed(order_id, actions);
            },
            RobotResponse::OrderInProcess { robot_id, order, addr, screen_addr } => {
                self.register_order(screen_addr, &order);
                let order_id = order.id();
                proof {
                    assert forall|k: usize|
                        old(self).orders@.contains_key(k) && k != order_id implies self.orders@.contains_key(k)
                        && self.orders@[k].status == old(self).orders@[k].status by {
                        assert(old(self).orders@.remove(order_id).contains_key(k));
                        assert(self.orders@.remove(order_id)[k] == self.orders@[k]);
                        assert(old(self).orders@.remove(order_id)[k] == old(self).orders@[k]);
                    }
                }
                let ghost after_register = self.orders@;
                if robot_id < NUMBER_ROBOTS && self.robot_states[robot_id].is_some() {
                    self.received_all_updated_orders.push(robot_id);
                    Self::send_to_screen(screen_addr, ScreenReply::Ready, order_id, actions);
                    let ghost mid = actions@;
                    self.unassign(robot_id);
                    proof {
                        assert forall|k: usize| #[trigger] after_register.contains_key(k) implies self.orders@.contains_key(k)
                            && self.orders@[k].status == after_register[k].status by {}
                    }
                    let ghost after_unassign = self.orders@;
                    self.set_robot_state(robot_id, RobotStateForCoordinator::Busy { order_id });
                    self.set_order_robot(order_id, robot_id);
                    proof {
                        assert forall|k: usize| #[trigger] after_unassign.contains_key(k) && k != order_id implies self.orders@.contains_key(k)
                            && self.orders@[k].status == after_unassign[k].status by {}
                    }
                    assert(self.orders@[order_id].screen_addr == screen_addr);
                    assert(self.orders@[order_id].robot_id == Some(robot_id));
                    self.drop_from_queue(order_id);
                    proof {
                        broadcast use vstd::seq_lib::group_filter_ensures;
                        if queued(self.order_queue@, order_id) {
                            let i = choose|i: int| 0 <= i < self.order_queue@.len() && self.order_queue@[i].0.order_id == order_id;
                            assert(self.order_queue@[i].0.order_id != order_id);
                        }
                    }
                    self.count_report(actions);
                    assert(actions@.take(mid.len() as int)[old(actions)@.len() as int] == mid[old(actions)@.len() as int]);
                    assert(self.orders@[order_id].screen_addr == screen_addr);
                } else if self.received_all_updated_orders.len() == NUMBER_ROBOTS - 1 {
                    self.received_all_updated_orders = Vec::new();
                    Self::send_to_screen(screen_addr, ScreenReply::Ready, order_id, actions);
                    let ghost mid = actions@;
                    self.assign_order_to_robot(order, &screen_addr, actions);
                    assert(actions@.take(mid.len() as int)[old(actions)@.len() as int] == mid[old(actions)@.len() as int]);
                    assert(self.orders@[order_id].screen_addr == screen_addr);
                } else {
                    Self::send_to_screen(screen_addr, ScreenReply::Ready, order_id, actions);
                    let ghost mid = actions@;
                    self.order_queue.push((order, screen_addr));
                    assert(self.orders@[order_id].screen_addr == screen_addr);
                }
            },
            RobotResponse::ReassignOrder { robot_id } => {
                self.fix_order(robot_id, actions);
            },
            RobotResponse::NoOrderInProcess { robot_id, addr: _ } => {
                self.received_all_updated_orders.push(robot_id);
                self.count_report(actions);
            },
        }
    }
}

/// A record's status after a run of events from `Pending`: `true` for the
/// screen's `commit`, `false` for a robot's report that the order is done.
pub open spec fn status_after(events: Seq<bool>) -> OrderStatus
    decreases events.len(),
{
    if events.len() == 0 {
        OrderStatus::Pending
    } else if events.last() {
        commit_step(status_after(events.drop_last()))
    } else {
        finish_step(status_after(events.drop_last()))
    }
}

/// In a well-formed leader, a container has at most one holder and a robot holds
/// at most one container: no two containers name the same holder.
pub proof fn lemma_one_container_per_robot(c: &Coordinator, i: int, j: int)
    requires
        c.wf(),
        0 <= i < j < NUMBER_OF_FLAVORS,
        c.containers@[i].in_use_by is Some,
    ensures
        c.containers@[i].in_use_by != c.containers@[j].in_use_by,
{
    let r = c.containers@[i].in_use_by->0;
    assert(holds_flavor(c.robot_states@[r as int], all_flavors()[i]));
    if c.containers@[j].in_use_by == Some(r) {
        assert(holds_flavor(c.robot_states@[r as int], all_flavors()[j]));
        assert(all_flavors()[i] != all_flavors()[j]);
    }
}

/// A record reaches `Completed` only once both the screen's `commit` and a
/// robot's report that the order is done have arrived, in either order, and it
/// gets there from `CommitReceived` or from `CompletedButNotCommited`.
pub proof fn lemma_completed_needs_commit_and_finish(events: Seq<bool>)
    ensures
        status_after(events) == OrderStatus::Completed ==> events.contains(true) && events.contains(
            false,
        ),
        status_after(events) == OrderStatus::CommitReceived ==> events.contains(true),
        status_after(events) == OrderStatus::CompletedButNotCommited ==> events.contains(false),
        status_after(events) != OrderStatus::Aborted,
        events.len() > 0 && status_after(events) == OrderStatus::Completed && status_after(
            events.drop_last(),
        ) != OrderStatus::Completed ==> status_after(events.drop_last())
            == OrderStatus::CommitReceived || status_after(events.drop_last())
            == OrderStatus::CompletedButNotCommited,
    decreases events.len(),
{
    if events.len() > 0 {
        let prefix = events.drop_last();
        lemma_completed_needs_commit_and_finish(prefix);
        let last = events.len() - 1;
        assert(events[last] == events.last());
        assert forall|b: bool| prefix.contains(b) implies events.contains(b) by {
            let k = choose|k: int| 0 <= k < prefix.len() && prefix[k] == b;
            assert(events[k] == b);
        }
    }
}

} // verus!
