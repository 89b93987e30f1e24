use vstd::prelude::*;

verus! {

/// Supported ice cream flavors; each one has its own container.
#[derive(Debug, Clone, Copy, PartialEq, Eq, Structural, Hash)]
pub enum IceCreamFlavor {
    Chocolate,
    Strawberry,
    Vanilla,
    Mint,
    Lemon,
}

/// Every flavor, in the order in which the shop lists them.
pub open spec fn all_flavors() -> Seq<IceCreamFlavor> {
    seq![
        IceCreamFlavor::Chocolate,
        IceCreamFlavor::Strawberry,
        IceCreamFlavor::Vanilla,
        IceCreamFlavor::Mint,
        IceCreamFlavor::Lemon,
    ]
}

/// Number of flavors, and so of containers.
pub const NUMBER_OF_FLAVORS: usize = 5;

impl IceCreamFlavor {
    /// Position of the flavor in `all_flavors()`.
    pub open spec fn spec_index(self) -> nat {
        match self {
            IceCreamFlavor::Chocolate => 0,
            IceCreamFlavor::Strawberry => 1,
            IceCreamFlavor::Vanilla => 2,
            IceCreamFlavor::Mint => 3,
            IceCreamFlavor::Lemon => 4,
        }
    }

    /// Returns all the possible values of IceCreamFlavor
    pub fn values() -> (r: Vec<IceCreamFlavor>)
        ensures
            r@ == all_flavors(),
    {
        let r = vec![
            IceCreamFlavor::Chocolate,
            IceCreamFlavor::Strawberry,
            IceCreamFlavor::Vanilla,
            IceCreamFlavor::Mint,
            IceCreamFlavor::Lemon,
        ];
        assert(r@ =~= all_flavors());
        r
    }

    /// Position of the flavor in the list of all flavors.
    pub fn index(&self) -> (r: usize)
        ensures
            r == self.spec_index(),
            r < NUMBER_OF_FLAVORS,
            all_flavors()[r as int] == *self,
    {
        match self {
            IceCreamFlavor::Chocolate => 0,
            IceCreamFlavor::Strawberry => 1,
            IceCreamFlavor::Vanilla => 2,
            IceCreamFlavor::Mint => 3,
            IceCreamFlavor::Lemon => 4,
        }
    }
}

/// Kinds of container an item is served in.
#[derive(Debug, Clone, Copy, PartialEq, Eq, Structural, Hash)]
pub enum ContainerType {
    Cup,
    Cone,
    OneKilo,
    HalfKilo,
    QuarterKilo,
}

impl ContainerType {
    /// Milliseconds needed to prepare one item served in this container.
    pub open spec fn spec_time_to_prepare(self) -> nat {
        match self {
            ContainerType::Cup => 200,
            ContainerType::Cone => 100,
            ContainerType::OneKilo => 1000,
            ContainerType::HalfKilo => 500,
            ContainerType::QuarterKilo => 300,
        }
    }

    /// Amount taken from a flavor's container for one unit of this container.
    pub open spec fn spec_amount_per_flavor(self) -> nat {
        match self {
            ContainerType::Cup => 15,
            ContainerType::Cone => 10,
            ContainerType::OneKilo => 100,
            ContainerType::HalfKilo => 50,
            ContainerType::QuarterKilo => 25,
        }
    }

    /// Returns all the possible values of ContainerType
    pub fn values() -> (r: Vec<ContainerType>)
        ensures
            r@ == seq![
                ContainerType::Cup,
                ContainerType::Cone,
                ContainerType::OneKilo,
                ContainerType::HalfKilo,
                ContainerType::QuarterKilo,
            ],
    {
        let r = vec![
            ContainerType::Cup,
            ContainerType::Cone,
            ContainerType::OneKilo,
            ContainerType::HalfKilo,
            ContainerType::QuarterKilo,
        ];
        assert(r@ =~= seq![
            ContainerType::Cup,
            ContainerType::Cone,
            ContainerType::OneKilo,
            ContainerType::HalfKilo,
            ContainerType::QuarterKilo,
        ]);
        r
    }
}

} // verus!
