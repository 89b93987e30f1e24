use vstd::prelude::*;

use crate::flavor::{all_flavors, ContainerType, IceCreamFlavor};

verus! {

/// Abstract value of an item.
pub struct ItemView {
    pub container: ContainerType,
    pub units: u32,
    pub flavors: Seq<IceCreamFlavor>,
}

/// Abstract value of an order.
pub struct OrderView {
    pub order_id: usize,
    pub client_id: usize,
    pub credit_card: Seq<char>,
    pub items: Seq<ItemView>,
}

/// One line of an order: a number of units of one container, with its flavors.
#[derive(Debug)]
pub struct Item {
    pub container: ContainerType,
    pub units: u32,
    pub flavors: Vec<IceCreamFlavor>,
}

/// An order of a client: an id, the client, a card token and the items.
#[derive(Debug)]
pub struct Order {
    pub order_id: usize,
    pub client_id: usize,
    pub credit_card: String,
    pub items: Vec<Item>,
}

impl View for Item {
    type V = ItemView;

    open spec fn view(&self) -> ItemView {
        ItemView { container: self.container, units: self.units, flavors: self.flavors@ }
    }
}

impl View for Order {
    type V = OrderView;

    open spec fn view(&self) -> OrderView {
        OrderView {
            order_id: self.order_id,
            client_id: self.client_id,
            credit_card: self.credit_card@,
            items: self.items@.map_values(|i: Item| i@),
        }
    }
}

/// How many times `f` occurs in `fs`.
pub open spec fn count_flavor(fs: Seq<IceCreamFlavor>, f: IceCreamFlavor) -> nat
    decreases fs.len(),
{
    if fs.len() == 0 {
        0
    } else {
        count_flavor(fs.drop_last(), f) + if fs.last() == f {
            1nat
        } else {
            0nat
        }
    }
}

/// Amount that one flavor of an item takes from a container, per occurrence.
pub open spec fn unit_amount(item: ItemView) -> nat {
    (item.units as nat) * item.container.spec_amount_per_flavor()
}

/// Amount of flavor `f` that an item needs.
pub open spec fn item_flavor_amount(item: ItemView, f: IceCreamFlavor) -> nat {
    count_flavor(item.flavors, f) * unit_amount(item)
}

/// Amount of flavor `f` that a sequence of items needs.
pub open spec fn flavor_total(items: Seq<ItemView>, f: IceCreamFlavor) -> nat
    decreases items.len(),
{
    if items.len() == 0 {
        0
    } else {
        flavor_total(items.drop_last(), f) + item_flavor_amount(items.last(), f)
    }
}

/// Preparation time of a sequence of items, in milliseconds.
pub open spec fn time_total(items: Seq<ItemView>) -> nat
    decreases items.len(),
{
    if items.len() == 0 {
        0
    } else {
        time_total(items.drop_last()) + items.last().container.spec_time_to_prepare()
    }
}

/// Whether some item of the order holds flavor `f`.
pub open spec fn uses_flavor(items: Seq<ItemView>, f: IceCreamFlavor) -> bool {
    exists|i: int| 0 <= i < items.len() && items[i].flavors.contains(f)
}

/// The distinct flavors of `fs`, each where it first appears.
pub open spec fn first_occurrences(fs: Seq<IceCreamFlavor>) -> Seq<IceCreamFlavor>
    decreases fs.len(),
{
    if fs.len() == 0 {
        Seq::empty()
    } else {
        let prev = first_occurrences(fs.drop_last());
        if prev.contains(fs.last()) {
            prev
        } else {
            prev.push(fs.last())
        }
    }
}

/// The per-flavor totals and the preparation time of the order fit in a `u32`.
pub open spec fn order_fits(o: OrderView) -> bool {
    &&& time_total(o.items) <= u32::MAX
    &&& forall|f: IceCreamFlavor| flavor_total(o.items, f) <= u32::MAX
}

/// What the order asks of each container, listed in the order of `all_flavors()`:
/// one entry for each flavor that some item holds.
pub open spec fn amounts_spec(o: OrderView) -> Seq<(IceCreamFlavor, u32)> {
    all_flavors().filter(|f: IceCreamFlavor| uses_flavor(o.items, f)).map_values(
        |f: IceCreamFlavor| (f, flavor_total(o.items, f) as u32),
    )
}

proof fn lemma_count_prefix(fs: Seq<IceCreamFlavor>, f: IceCreamFlavor, j: int)
    requires
        0 <= j <= fs.len(),
    ensures
        count_flavor(fs.take(j), f) <= count_flavor(fs, f),
    decreases fs.len(),
{
    if j < fs.len() {
        assert(fs.drop_last().take(j) =~= fs.take(j));
        lemma_count_prefix(fs.drop_last(), f, j);
    } else {
        assert(fs.take(j) =~= fs);
    }
}

proof fn lemma_count_contains(fs: Seq<IceCreamFlavor>, f: IceCreamFlavor)
    ensures
        count_flavor(fs, f) > 0 <==> fs.contains(f),
    decreases fs.len(),
{
    if fs.len() > 0 {
        lemma_count_contains(fs.drop_last(), f);
        if fs.drop_last().contains(f) {
            let k = choose|k: int| 0 <= k < fs.drop_last().len() && fs.drop_last()[k] == f;
            assert(fs[k] == f);
        }
        if fs.contains(f) {
            let k = choose|k: int| 0 <= k < fs.len() && fs[k] == f;
            if k < fs.len() - 1 {
                assert(fs.drop_last()[k] == f);
            }
        }
    }
}

proof fn lemma_total_prefix(items: Seq<ItemView>, f: IceCreamFlavor, i: int)
    requires
        0 <= i <= items.len(),
    ensures
        flavor_total(items.take(i), f) <= flavor_total(items, f),
    decreases items.len(),
{
    if i < items.len() {
        assert(items.drop_last().take(i) =~= items.take(i));
        lemma_total_prefix(items.drop_last(), f, i);
    } else {
        assert(items.take(i) =~= items);
    }
}

proof fn lemma_time_prefix(items: Seq<ItemView>, i: int)
    requires
        0 <= i <= items.len(),
    ensures
        time_total(items.take(i)) <= time_total(items),
    decreases items.len(),
{
    if i < items.len() {
        assert(items.drop_last().take(i) =~= items.take(i));
        lemma_time_prefix(items.drop_last(), i);
    } else {
        assert(items.take(i) =~= items);
    }
}

impl Item {
    /// Creates a new item
    pub fn new(container: ContainerType, units: u32, flavors: Vec<IceCreamFlavor>) -> (r: Item)
        ensures
            r@ == (ItemView { container, units, flavors: flavors@ }),
    {
        Item { container, units, flavors }
    }

    /// To obtain the container of this item
    pub fn container(&self) -> (r: &ContainerType)
        ensures
            *r == self.container,
    {
        &self.container
    }

    /// To obtain the units of this item
    pub fn units(&self) -> (r: u32)
        ensures
            r == self.units,
    {
        self.units
    }

    /// To obtain the flavors of this item
    pub fn flavors(&self) -> (r: &Vec<IceCreamFlavor>)
        ensures
            r@ == self.flavors@,
    {
        &self.flavors
    }

    /// An item with the same value.
    pub fn duplicate(&self) -> (r: Item)
        ensures
            r@ == self@,
    {
        let flavors = self.flavors.clone();
        assert(flavors@ =~= self.flavors@);
        Item { container: self.container, units: self.units, flavors }
    }

    /// Time to prepare one item, which depends on its container.
    pub fn time_to_prepare(&self) -> (r: u32)
        ensures
            r as nat == self.container.spec_time_to_prepare(),
    {
        match self.container {
            ContainerType::Cup => 200,
            ContainerType::Cone => 100,
            ContainerType::OneKilo => 1000,
            ContainerType::HalfKilo => 500,
            ContainerType::QuarterKilo => 300,
        }
    }

    fn flavor_amount_per_container(&self) -> (r: u32)
        ensures
            r as nat == self.container.spec_amount_per_flavor(),
    {
        match self.container {
            ContainerType::Cup => 15,
            ContainerType::Cone => 10,
            ContainerType::OneKilo => 100,
            ContainerType::HalfKilo => 50,
            ContainerType::QuarterKilo => 25,
        }
    }

    /// Amount of `flavor` that this item takes from its container.
    pub fn amount_for_flavor(&self, flavor: IceCreamFlavor) -> (r: u32)
        requires
            item_flavor_amount(self@, flavor) <= u32::MAX,
        ensures
            r as nat == item_flavor_amount(self@, flavor),
    {
        let ua_wide: u64 = self.units as u64 * self.flavor_amount_per_container() as u64;
        let ghost ua = unit_amount(self@);
        assert(ua_wide as nat == ua);
        let ghost full = count_flavor(self.flavors@, flavor);
        let mut acc: u32 = 0;
        let mut j: usize = 0;
        assert(self.flavors@.take(0) =~= Seq::<IceCreamFlavor>::empty());
        assert(0 * ua == 0) by (nonlinear_arith);
        while j < self.flavors.len()
            invariant
                0 <= j <= self.flavors@.len(),
                ua_wide as nat == ua,
                full == count_flavor(self.flavors@, flavor),
                full * ua <= u32::MAX,
                acc as nat == count_flavor(self.flavors@.take(j as int), flavor) * ua,
            decreases self.flavors.len() - j,
        {
            let ghost c = count_flavor(self.flavors@.take(j as int), flavor);
            assert(self.flavors@.take(j as int + 1).drop_last() =~= self.flavors@.take(j as int));
            if self.flavors[j] == flavor {
                proof {
                    lemma_count_prefix(self.flavors@, flavor, j as int + 1);
                    assert((c + 1) * ua == c * ua + ua) by (nonlinear_arith);
                    assert((c + 1) * ua <= full * ua) by (nonlinear_arith)
                        requires
                            c + 1 <= full,
                    ;
                }
                acc = acc + ua_wide as u32;
            }
            j = j + 1;
        }
        assert(self.flavors@.take(self.flavors@.len() as int) =~= self.flavors@);
        acc
    }

    /// The amount of each flavor of the item: each flavor once, in the order in
    /// which it first appears among the item's flavors.
    pub fn amount_per_flavor(&self) -> (r: Vec<(IceCreamFlavor, u32)>)
        requires
            forall|f: IceCreamFlavor| item_flavor_amount(self@, f) <= u32::MAX,
        ensures
            r@ == first_occurrences(self.flavors@).map_values(
                |f: IceCreamFlavor| (f, item_flavor_amount(self@, f) as u32),
            ),
    {
        let ghost fs = self.flavors@;
        let ghost pair = |f: IceCreamFlavor| (f, item_flavor_amount(self@, f) as u32);
        let mut r: Vec<(IceCreamFlavor, u32)> = Vec::new();
        let mut j: usize = 0;
        assert(fs.take(0) =~= Seq::<IceCreamFlavor>::empty());
        assert(r@ =~= first_occurrences(fs.take(0)).map_values(pair));
        while j < self.flavors.len()
            invariant
                fs == self.flavors@,
                0 <= j <= fs.len(),
                forall|f: IceCreamFlavor| item_flavor_amount(self@, f) <= u32::MAX,
                pair == (|f: IceCreamFlavor| (f, item_flavor_amount(self@, f) as u32)),
                r@ == first_occurrences(fs.take(j as int)).map_values(pair),
            decreases self.flavors.len() - j,
        {
            let f = self.flavors[j];
            let ghost d = first_occurrences(fs.take(j as int));
            assert(fs.take(j as int + 1).drop_last() =~= fs.take(j as int));
            assert(fs.take(j as int + 1).last() == f);
            let mut found = false;
            let mut k: usize = 0;
            while k < r.len()
                invariant
                    r@ == d.map_values(pair),
                    pair == (|f: IceCreamFlavor| (f, item_flavor_amount(self@, f) as u32)),
                    0 <= k <= r@.len(),
                    found <==> exists|m: int| 0 <= m < k && d[m] == f,
                decreases r.len() - k,
            {
                assert(r@[k as int].0 == d[k as int]);
                if r[k].0 == f {
                    found = true;
                }
                k = k + 1;
            }
            assert(found <==> d.contains(f));
            if !found {
                let amount = self.amount_for_flavor(f);
                r.push((f, amount));
                assert(r@ =~= d.push(f).map_values(pair));
            }
            j = j + 1;
        }
        assert(fs.take(fs.len() as int) =~= fs);
        r
    }
}

impl Order {
    /// Creates a new order
    pub fn new(order_id: usize, client_id: usize, credit_card: String, items: Vec<Item>) -> (r: Order)
        ensures
            r.order_id == order_id,
            r.client_id == client_id,
            r.credit_card@ == credit_card@,
            r.items@ == items@,
    {
        Order { order_id, client_id, credit_card, items }
    }

    /// To obtain the id of this order
    pub fn id(&self) -> (r: usize)
        ensures
            r == self.order_id,
    {
        self.order_id
    }

    /// To obtain the client of this order
    pub fn client_id(&self) -> (r: usize)
        ensures
            r == self.client_id,
    {
        self.client_id
    }

    /// To obtain the card token of this order
    pub fn credit_card(&self) -> (r: &str)
        ensures
            r@ == self.credit_card@,
    {
        self.credit_card.as_str()
    }

    /// To obtain the items of this order
    pub fn items(&self) -> (r: &Vec<Item>)
        ensures
            r@ == self.items@,
    {
        &self.items
    }

    /// An order with the same value.
    pub fn duplicate(&self) -> (r: Order)
        ensures
            r@ == self@,
    {
        let mut items: Vec<Item> = Vec::new();
        let mut i: usize = 0;
        while i < self.items.len()
            invariant
                0 <= i <= self.items@.len(),
                items@.len() == i,
                forall|k: int| 0 <= k < i ==> #[trigger] items@[k]@ == self.items@[k]@,
            decreases self.items.len() - i,
        {
            items.push(self.items[i].duplicate());
            i = i + 1;
        }
        let r = Order {
            order_id: self.order_id,
            client_id: self.client_id,
            credit_card: self.credit_card.clone(),
            items,
        };
        assert(r@.items =~= self@.items);
        r
    }

    /// Total preparation time of the order, in milliseconds.
    pub fn time_to_prepare(&self) -> (r: u32)
        requires
            time_total(self@.items) <= u32::MAX,
        ensures
            r as nat == time_total(self@.items),
    {
        let ghost items = self@.items;
        let mut total: u32 = 0;
        let mut i: usize = 0;
        while i < self.items.len()
            invariant
                items == self@.items,
                0 <= i <= items.len(),
                time_total(items) <= u32::MAX,
                total as nat == time_total(items.take(i as int)),
            decreases self.items.len() - i,
        {
            assert(items.take(i as int + 1).drop_last() =~= items.take(i as int));
            proof {
                lemma_time_prefix(items, i as int + 1);
            }
            total = total + self.items[i].time_to_prepare();
            i = i + 1;
        }
        assert(items.take(items.len() as int) =~= items);
        total
    }

    /// Amount of `flavor` that the whole order needs.
    pub fn amounts_for_flavor(&self, flavor: IceCreamFlavor) -> (r: u32)
        requires
            flavor_total(self@.items, flavor) <= u32::MAX,
        ensures
            r as nat == flavor_total(self@.items, flavor),
    {
        let ghost items = self@.items;
        let mut total: u32 = 0;
        let mut i: usize = 0;
        while i < self.items.len()
            invariant
                items == self@.items,
                0 <= i <= items.len(),
                flavor_total(items, flavor) <= u32::MAX,
                total as nat == flavor_total(items.take(i as int), flavor),
            decreases self.items.len() - i,
        {
            assert(items.take(i as int + 1).drop_last() =~= items.take(i as int));
            proof {
                lemma_total_prefix(items, flavor, i as int + 1);
            }
            total = total + self.items[i].amount_for_flavor(flavor);
            i = i + 1;
        }
        assert(items.take(items.len() as int) =~= items);
        total
    }

    /// Whether some item of the order holds `flavor`.
    pub fn uses_flavor(&self, flavor: IceCreamFlavor) -> (r: bool)
        ensures
            r == uses_flavor(self@.items, flavor),
    {
        let mut i: usize = 0;
        while i < self.items.len()
            invariant
                0 <= i <= self.items@.len(),
                forall|k: int| 0 <= k < i ==> !(#[trigger] self@.items[k]).flavors.contains(flavor),
            decreases self.items.len() - i,
        {
            let mut j: usize = 0;
            let fs = &self.items[i].flavors;
            while j < fs.len()
                invariant
                    0 <= j <= fs@.len(),
                    0 <= i < self@.items.len(),
                    fs@ == self@.items[i as int].flavors,
                    forall|k: int| 0 <= k < j ==> fs@[k] != flavor,
                decreases fs.len() - j,
            {
                if fs[j] == flavor {
                    assert(fs@[j as int] == flavor);
                    assert(self@.items[i as int].flavors.contains(flavor));
                    assert(uses_flavor(self@.items, flavor));
                    return true;
                }
                j = j + 1;
            }
            i = i + 1;
        }
        false
    }

    /// What the order asks of each container: one entry for each flavor that
    /// some item holds, in the order of `IceCreamFlavor::values()`.
    pub fn amounts_for_all_flavors(&self) -> (r: Vec<(IceCreamFlavor, u32)>)
        requires
            order_fits(self@),
        ensures
            r@ == amounts_spec(self@),
    {
        let all = IceCreamFlavor::values();
        let mut r: Vec<(IceCreamFlavor, u32)> = Vec::new();
        let mut k: usize = 0;
        while k < all.len()
            invariant
                all@ == all_flavors(),
                0 <= k <= all@.len(),
                order_fits(self@),
                r@ == all@.take(k as int).filter(|f: IceCreamFlavor| uses_flavor(self@.items, f)).map_values(
                    |f: IceCreamFlavor| (f, flavor_total(self@.items, f) as u32),
                ),
            decreases all.len() - k,
        {
            let f = all[k];
            assert(all@.take(k as int + 1).drop_last() =~= all@.take(k as int));
            reveal(Seq::filter);
            if self.uses_flavor(f) {
                let amount = self.amounts_for_flavor(f);
                r.push((f, amount));
            }
            k = k + 1;
        }
        assert(all@.take(all@.len() as int) =~= all@);
        r
    }
}

/// Number of times `f` occurs in `fs`.
pub fn count_flavor_in(fs: &Vec<IceCreamFlavor>, f: IceCreamFlavor) -> (r: usize)
    ensures
        r as nat == count_flavor(fs@, f),
{
    let mut c: usize = 0;
    let mut j: usize = 0;
    assert(fs@.take(0) =~= Seq::<IceCreamFlavor>::empty());
    while j < fs.len()
        invariant
            0 <= j <= fs@.len(),
            c <= j,
            c as nat == count_flavor(fs@.take(j as int), f),
        decreases fs.len() - j,
    {
        assert(fs@.take(j as int + 1).drop_last() =~= fs@.take(j as int));
        if fs[j] == f {
            c = c + 1;
        }
        j = j + 1;
    }
    assert(fs@.take(fs@.len() as int) =~= fs@);
    c
}

impl Order {
    /// Whether the preparation time and every per-flavor amount of the order fit
    /// in a `u32`.
    pub fn fits(&self) -> (r: bool)
        ensures
            r == order_fits(self@),
    {
        let ghost items = self@.items;
        let mut t: u64 = 0;
        let mut i: usize = 0;
        while i < self.items.len()
            invariant
                items == self@.items,
                0 <= i <= items.len(),
                t as nat == time_total(items.take(i as int)),
                t <= u32::MAX,
            decreases self.items.len() - i,
        {
            assert(items.take(i as int + 1).drop_last() =~= items.take(i as int));
            t = t + self.items[i].time_to_prepare() as u64;
            if t > u32::MAX as u64 {
                proof {
                    lemma_time_prefix(items, i as int + 1);
                }
                return false;
            }
            i = i + 1;
        }
        assert(items.take(items.len() as int) =~= items);
        let all = IceCreamFlavor::values();
        let mut k: usize = 0;
        while k < all.len()
            invariant
                items == self@.items,
                all@ == all_flavors(),
                time_total(items) <= u32::MAX,
                0 <= k <= all@.len(),
                forall|m: int| 0 <= m < k ==> flavor_total(items, #[trigger] all@[m]) <= u32::MAX,
            decreases all.len() - k,
        {
            let f = all[k];
            let mut acc: u128 = 0;
            let mut i: usize = 0;
            while i < self.items.len()
                invariant
                    items == self@.items,
                    0 <= i <= items.len(),
                    acc as nat == flavor_total(items.take(i as int), f),
                    acc <= u32::MAX,
                decreases self.items.len() - i,
            {
                assert(items.take(i as int + 1).drop_last() =~= items.take(i as int));
                let item = &self.items[i];
                let c = count_flavor_in(&item.flavors, f);
                let per = item.flavor_amount_per_container();
                assert(per <= 100);
                assert(item.units as u128 * per as u128 <= 0xffff_ffffu128 * 100) by (nonlinear_arith)
                    requires
                        item.units <= 0xffff_ffffu32,
                        per <= 100,
                ;
                let ua: u128 = item.units as u128 * per as u128;
                assert(ua as nat == unit_amount(item@));
                assert(c as u128 * ua <= 0xffff_ffff_ffff_ffffu128 * 0xff_ffff_ffffu128) by (nonlinear_arith)
                    requires
                        c <= 0xffff_ffff_ffff_ffffu128,
                        ua <= 0xff_ffff_ffffu128,
                ;
                acc = acc + c as u128 * ua;
                if acc > u32::MAX as u128 {
                    proof {
                        lemma_total_prefix(items, f, i as int + 1);
                    }
                    return false;
                }
                i = i + 1;
            }
            assert(items.take(items.len() as int) =~= items);
            k = k + 1;
        }
        assert forall|f: IceCreamFlavor| flavor_total(items, f) <= u32::MAX by {
            assert(all@[f.spec_index() as int] == f);
        }
        true
    }
}

impl Default for Order {
    fn default() -> (r: Order)
        ensures
            r.order_id == 0,
            r.client_id == 0,
            r.credit_card@.len() == 0,
            r.items@.len() == 0,
    {
        Order { order_id: 0, client_id: 0, credit_card: String::new(), items: Vec::new() }
    }
}

} // verus!
