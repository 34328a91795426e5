//! The orders of the shop.

use crate::sample::status::OrderStatus;
use crate::sample::user::{User, UserId};
use vstd::prelude::*;

verus! {

#[derive(Debug, Clone, PartialEq)]
pub struct Order {
    pub id: u64,
    pub buyer: User,
    pub status: OrderStatus,
}

impl Order {
    /// A new order. It is pending.
    pub fn new(id: u64, buyer: User) -> (r: Self)
        ensures
            r.id == id,
            r.buyer == buyer,
            r.status == OrderStatus::Pending,
    {
        Order { id, buyer, status: OrderStatus::Pending }
    }

    /// The id of the buyer.
    pub fn buyer_id(&self) -> (r: UserId)
        ensures
            r == self.buyer.id,
    {
        self.buyer.id
    }
}

} // verus!
