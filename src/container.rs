use vstd::prelude::*;

verus! {

/// The stock of one flavor, with the robot that holds it, if any.
#[derive(Debug, Clone, Copy, PartialEq, Eq, Structural)]
pub struct Container {
    pub quantity: u32,
    pub in_use_by: Option<usize>,
}

impl Container {
    /// A full, unheld container.
    pub fn new(quantity: u32) -> (r: Self)
        ensures
            r.quantity == quantity,
            r.in_use_by.is_none(),
    {
        Container { quantity, in_use_by: None }
    }

    /// Whether no robot holds the container.
    pub fn is_available(&self) -> (r: bool)
        ensures
            r == self.in_use_by.is_none(),
    {
        self.in_use_by.is_none()
    }

    /// The amount left in the container.
    pub fn quantity(&self) -> (r: u32)
        ensures
            r == self.quantity,
    {
        self.quantity
    }

    /// Grants the container to `robot_id`, taking `amount` from it.
    pub fn use_container(&mut self, robot_id: usize, amount: u32)
        requires
            old(self).in_use_by.is_none(),
            amount <= old(self).quantity,
        ensures
            final(self).in_use_by == Some(robot_id),
            final(self).quantity == old(self).quantity - amount,
    {
        self.in_use_by = Some(robot_id);
        self.quantity = self.quantity - amount;
    }

    /// Frees the container.
    pub fn release_container(&mut self)
        ensures
            final(self).in_use_by.is_none(),
            final(self).quantity == old(self).quantity,
    {
        self.in_use_by = None;
    }
}

} // verus!
