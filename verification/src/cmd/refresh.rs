//! Refreshing every mission once.
use vstd::prelude::*;
use crate::cmd::{Mode, N7Cookie};

verus! {

/// Refresh every mission and quit; this is the default.
#[derive(Debug)]
pub struct Refresh {
    /// The cookie as an option of this command, so that the arguments parse
    /// when the command is left out.
    pub value: Option<String>,
}

impl Refresh {
    /// What this command sets out to do.
    pub open spec fn mode(self, cookie: N7Cookie) -> Mode {
        Mode::RefreshOnce { cookie: cookie.value }
    }

    /// Refresh every mission once, with the identifier cookie `cookie`.
    pub fn run(self, cookie: N7Cookie) -> (res: Mode)
        ensures
            res == self.mode(cookie),
    {
        Mode::RefreshOnce { cookie: cookie.value }
    }
}

/// The refresh command always sets out to refresh once with the given
/// cookie, whatever its placeholder holds.
pub proof fn law_refresh_runs_once(r: Refresh, cookie: N7Cookie)
    ensures
        r.mode(cookie) == (Mode::RefreshOnce { cookie: cookie.value }),
        r.mode(cookie) == (Refresh { value: None }).mode(cookie),
{
}

} // verus!
