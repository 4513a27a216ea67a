//! Verified core of `galactic`: the decisions that deploy missions and collect
//! rewards for galactic readiness on the N7 headquarters site.
use vstd::prelude::*;

pub mod client;
pub mod cmd;
pub mod html;
pub mod percent;
pub mod text;

verus! {

/// Page of the galactic readiness, where missions are launched.
pub const BASE_URL: &'static str = "http://n7hq.masseffect.com/galaxy_at_war/galactic_readiness/";

/// Name of the identifier cookie of the N7 headquarters site.
pub const ID_COOKIE: &'static str = "ME3N7HQSID";

/// What can be done with a mission.
#[derive(Debug, Clone, Copy, PartialEq, Eq, Structural)]
pub enum Action {
    /// collect rewards
    Collect,
    /// deploy fleets
    Deploy,
}

impl Action {
    /// The value of the `ajax_action` query parameter for this action.
    pub open spec fn value_spec(self) -> Seq<char> {
        match self {
            Action::Collect => "collectRewards"@,
            Action::Deploy => "deployFleet"@,
        }
    }

    /// A human readable description of this action.
    pub open spec fn description_spec(self) -> Seq<char> {
        match self {
            Action::Collect => "collect rewards"@,
            Action::Deploy => "deploy fleet"@,
        }
    }

    /// The value of the `ajax_action` query parameter for this action.
    pub fn value(&self) -> (res: &'static str)
        ensures
            res@ == self.value_spec(),
    {
        match *self {
            Action::Collect => "collectRewards",
            Action::Deploy => "deployFleet",
        }
    }

    /// A human readable description of this action.
    pub fn description(&self) -> (res: &'static str)
        ensures
            res@ == self.description_spec(),
    {
        match *self {
            Action::Collect => "collect rewards",
            Action::Deploy => "deploy fleet",
        }
    }
}

} // verus!
