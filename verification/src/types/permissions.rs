//! What a player may do within a faction.

use vstd::prelude::*;

verus! {

/// One thing that a player may be allowed to do.
#[derive(Debug, Clone, Copy, Hash, PartialEq, Eq, Structural)]
pub enum Permissions {
    NoMoneyCap,
    MoveTroops,
    Build,
    War,
    Leader,
}

impl Permissions {
    /// The name of the permission, as it is written in the variant.
    pub open spec fn spec_name(self) -> Seq<char> {
        match self {
            Permissions::NoMoneyCap => "NoMoneyCap"@,
            Permissions::MoveTroops => "MoveTroops"@,
            Permissions::Build => "Build"@,
            Permissions::War => "War"@,
            Permissions::Leader => "Leader"@,
        }
    }

    /// The name of the permission, as it is written in the variant.
    pub fn name(&self) -> (s: String)
        ensures
            s@ == self.spec_name(),
    {
        match self {
            Permissions::NoMoneyCap => "NoMoneyCap".to_owned(),
            Permissions::MoveTroops => "MoveTroops".to_owned(),
            Permissions::Build => "Build".to_owned(),
            Permissions::War => "War".to_owned(),
            Permissions::Leader => "Leader".to_owned(),
        }
    }
}

} // verus!
