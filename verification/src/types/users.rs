//! A registered player.

use vstd::prelude::*;
use crate::types::permissions::Permissions;

verus! {

/// A player: who they are, the tag of their faction (empty while they have
/// none) and what they may do in it.
#[derive(Debug, Clone)]
pub struct User {
    pub uuid: String,
    pub username: String,
    pub discriminator: String,
    pub faction: String,
    pub permissions: Vec<Permissions>,
}

impl User {
    /// True where the player holds the permission or leads the faction.
    pub open spec fn spec_permitted(&self, permission: Permissions) -> bool {
        self.permissions@.contains(permission) || self.permissions@.contains(Permissions::Leader)
    }

    /// Whether the player may do what the permission stands for: they hold it,
    /// or they lead their faction.
    pub fn permitted(&self, permission: Permissions) -> (allowed: bool)
        ensures
            allowed == self.spec_permitted(permission),
    {
        let mut i: usize = 0;
        while i < self.permissions.len()
            invariant
                0 <= i <= self.permissions.len(),
                forall|j: int|
                    0 <= j < i ==> self.permissions@[j] != permission && self.permissions@[j]
                        != Permissions::Leader,
            decreases self.permissions.len() - i,
        {
            let held = self.permissions[i];
            if held == permission || held == Permissions::Leader {
                return true;
            }
            i = i + 1;
        }
        false
    }
}

impl Default for User {
    fn default() -> (u: User)
        ensures
            u.uuid@.len() == 0,
            u.username@.len() == 0,
            u.discriminator@.len() == 0,
            u.faction@.len() == 0,
            u.permissions@.len() == 0,
    {
        User {
            uuid: String::new(),
            username: String::new(),
            discriminator: String::new(),
            faction: String::new(),
            permissions: Vec::new(),
        }
    }
}

} // verus!
