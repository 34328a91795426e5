//! The users of the shop.

use vstd::prelude::*;

verus! {

/// The number by which a user is known.
pub type UserId = u64;

/// Something that is known by an id.
pub trait Identifiable {
    type Id: Copy + Eq;

    fn id(&self) -> Self::Id;
}

#[derive(Debug, Clone, PartialEq, Eq)]
pub struct User {
    pub id: UserId,
    pub name: String,
    pub email: String,
}

impl Identifiable for User {
    type Id = UserId;

    fn id(&self) -> (r: UserId)
        ensures
            r == self.id,
    {
        self.id
    }
}

impl User {
    /// A user with the given id, name and address.
    pub fn new(id: UserId, name: &str, email: &str) -> (r: Self)
        ensures
            r.id == id,
            r.name@ == name@,
            r.email@ == email@,
    {
        User { id, name: name.to_string(), email: email.to_string() }
    }

    /// The name of the user.
    pub fn name_ref(&self) -> (r: &str)
        ensures
            r@ == self.name@,
    {
        self.name.as_str()
    }

    /// Gives the user another name. Id and address stay.
    pub fn rename(&mut self, new_name: &str)
        ensures
            final(self).name@ == new_name@,
            final(self).id == old(self).id,
            final(self).email == old(self).email,
    {
        self.name = new_name.to_string();
    }
}

} // verus!
