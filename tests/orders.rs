use ice_cream_shop::flavor::{ContainerType, IceCreamFlavor};
use ice_cream_shop::order::{Item, Order};

#[test]
fn flavor_and_container_values() {
    assert_eq!(IceCreamFlavor::values().len(), 5);
    assert_eq!(IceCreamFlavor::values()[4], IceCreamFlavor::Lemon);
    assert_eq!(ContainerType::values()[2], ContainerType::OneKilo);
    assert_eq!(IceCreamFlavor::Vanilla.index(), 2);
}

#[test]
fn item_amounts_follow_the_container() {
    let item = Item::new(ContainerType::Cup, 2, vec![IceCreamFlavor::Vanilla, IceCreamFlavor::Mint]);
    assert_eq!(item.time_to_prepare(), 200);
    assert_eq!(
        item.amount_per_flavor(),
        vec![(IceCreamFlavor::Vanilla, 30), (IceCreamFlavor::Mint, 30)]
    );
    let twice = Item::new(ContainerType::OneKilo, 1, vec![IceCreamFlavor::Lemon, IceCreamFlavor::Lemon]);
    assert_eq!(twice.amount_per_flavor(), vec![(IceCreamFlavor::Lemon, 200)]);
    assert_eq!(twice.amount_for_flavor(IceCreamFlavor::Chocolate), 0);
    let ordered = Item::new(
        ContainerType::Cone,
        1,
        vec![IceCreamFlavor::Vanilla, IceCreamFlavor::Chocolate, IceCreamFlavor::Vanilla],
    );
    assert_eq!(
        ordered.amount_per_flavor(),
        vec![(IceCreamFlavor::Vanilla, 20), (IceCreamFlavor::Chocolate, 10)]
    );
}

#[test]
fn order_totals() {
    let order = Order::new(
        9,
        25,
        "0000111122223333".to_string(),
        vec![
            Item::new(ContainerType::Cup, 1, vec![IceCreamFlavor::Vanilla]),
            Item::new(ContainerType::Cone, 3, vec![IceCreamFlavor::Vanilla, IceCreamFlavor::Chocolate]),
            Item::new(ContainerType::QuarterKilo, 2, vec![IceCreamFlavor::Mint]),
        ],
    );
    assert_eq!(order.time_to_prepare(), 200 + 100 + 300);
    assert_eq!(order.amounts_for_flavor(IceCreamFlavor::Vanilla), 15 + 30);
    assert_eq!(order.amounts_for_flavor(IceCreamFlavor::Strawberry), 0);
    assert_eq!(
        order.amounts_for_all_flavors(),
        vec![
            (IceCreamFlavor::Chocolate, 30),
            (IceCreamFlavor::Vanilla, 45),
            (IceCreamFlavor::Mint, 50),
        ]
    );
    assert!(order.fits());
    assert_eq!(order.duplicate().id(), 9);
    assert_eq!(order.duplicate().credit_card(), "0000111122223333");
}

#[test]
fn empty_order_needs_nothing() {
    let order = Order::default();
    assert_eq!(order.time_to_prepare(), 0);
    assert!(order.amounts_for_all_flavors().is_empty());
    assert!(order.fits());
}

#[test]
fn huge_order_does_not_fit() {
    let order = Order::new(
        1,
        1,
        String::new(),
        vec![Item::new(ContainerType::OneKilo, u32::MAX, vec![IceCreamFlavor::Mint])],
    );
    assert!(!order.fits());
}
