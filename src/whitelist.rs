//! The users allowed to deposit and withdraw in a whitelisted vault.
use vstd::prelude::*;

use crate::error::ErrorCode;

verus! {

/// An admin and the users that the admin has allowed.
pub struct Whitelist {
    pub admin: u64,
    pub addresses: Vec<u64>,
}

impl Whitelist {
    /// A whitelist with no users.
    pub fn new(admin: u64) -> (r: Self)
        ensures
            r.admin == admin,
            r.addresses@ == Seq::<u64>::empty(),
    {
        Whitelist { admin, addresses: Vec::new() }
    }

    /// `user` is on the list.
    pub fn is_authorized(&self, user: u64) -> (r: bool)
        ensures
            r == self.addresses@.contains(user),
    {
        let mut i: usize = 0;
        while i < self.addresses.len()
            invariant
                i <= self.addresses@.len(),
                forall|j: int| 0 <= j < i ==> self.addresses@[j] != user,
            decreases self.addresses@.len() - i,
        {
            if self.addresses[i] == user {
                assert(self.addresses@[i as int] == user);
                return true;
            }
            i = i + 1;
        }
        false
    }

    /// Puts `user` on the list; for the admin only. A user already there is
    /// not added twice.
    pub fn add(&mut self, caller: u64, user: u64) -> (r: Result<(), ErrorCode>)
        ensures
            r == (if caller != old(self).admin {
                Err(ErrorCode::Unauthorized)
            } else {
                Ok(())
            }),
            final(self).admin == old(self).admin,
            r is Ok && old(self).addresses@.contains(user) ==> final(self).addresses@ == old(
                self,
            ).addresses@,
            r is Ok && !old(self).addresses@.contains(user) ==> final(self).addresses@ == old(
                self,
            ).addresses@.push(user),
            r is Err ==> *final(self) == *old(self),
    {
        if caller != self.admin {
            return Err(ErrorCode::Unauthorized);
        }
        if !self.is_authorized(user) {
            self.addresses.push(user);
        }
        Ok(())
    }
}

} // verus!
