//! The states of an order.

use vstd::prelude::*;

verus! {

#[derive(Debug, Clone, PartialEq, Eq)]
pub enum OrderStatus {
    Pending,
    Paid,
    Shipped,
    Delivered,
    /// Cancelled, with the reason.
    Cancelled(String),
}

impl OrderStatus {
    /// True of the states that no other state follows: delivered and
    /// cancelled.
    pub fn is_final(&self) -> (r: bool)
        ensures
            r == (self is Delivered || self is Cancelled),
    {
        match self {
            OrderStatus::Delivered => true,
            OrderStatus::Cancelled(_) => true,
            _ => false,
        }
    }
}

} // verus!
