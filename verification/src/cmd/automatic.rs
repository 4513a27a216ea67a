//! Refreshing every mission until the cookie expires.
use vstd::prelude::*;
use std::path::PathBuf;
use crate::client::CurrentMissions;
use crate::cmd::{Mode, N7Cookie};
use crate::ID_COOKIE;

verus! {

/// The subcommand that the program starts again with in the background.
pub const AUTOMATIC_SUBCOMMAND: &'static str = "automatic";

/// Refresh every mission until the cookie expires.
#[derive(Debug)]
pub struct Automatic {
    /// Run in the background automatically.
    pub daemonize: bool,
    /// For daemon mode: where to log; by default nothing is logged.
    pub log_file: Option<PathBuf>,
}

/// How the program starts itself again in the background: the cookie in the
/// environment variable `env_var`, the subcommand `subcommand`, and the
/// error output to `log_file`, or nowhere.
#[derive(Debug)]
pub struct Relaunch {
    pub env_var: &'static str,
    pub cookie: String,
    pub subcommand: &'static str,
    pub log_file: Option<PathBuf>,
}

impl Automatic {
    /// What this command sets out to do.
    pub open spec fn mode(self, cookie: N7Cookie) -> Mode {
        if self.daemonize {
            Mode::Daemonize(self.relaunch_spec(cookie))
        } else {
            Mode::Automatic { cookie: cookie.value }
        }
    }

    /// How the program starts itself again in the background.
    pub open spec fn relaunch_spec(self, cookie: N7Cookie) -> Relaunch {
        Relaunch {
            env_var: ID_COOKIE,
            cookie: cookie.value,
            subcommand: AUTOMATIC_SUBCOMMAND,
            log_file: self.log_file,
        }
    }

    /// Refresh every mission until the cookie expires, with the identifier
    /// cookie `cookie`: in the background when asked to.
    pub fn run(self, cookie: N7Cookie) -> (res: Mode)
        ensures
            res == self.mode(cookie),
    {
        if self.daemonize {
            Mode::Daemonize(self.relaunch(cookie))
        } else {
            Mode::Automatic { cookie: cookie.value }
        }
    }

    /// How the program starts itself again in the background.
    pub fn relaunch(self, cookie: N7Cookie) -> (res: Relaunch)
        ensures
            res == self.relaunch_spec(cookie),
    {
        Relaunch {
            env_var: ID_COOKIE,
            cookie: cookie.value,
            subcommand: AUTOMATIC_SUBCOMMAND,
            log_file: self.log_file,
        }
    }

    /// The exit code of the program once it tried to start itself again in
    /// the background: 0 when it did, 1 when it failed.
    pub fn daemonize(relaunched: bool) -> (res: i32)
        ensures
            res == (if relaunched { 0i32 } else { 1i32 }),
    {
        if relaunched {
            0
        } else {
            1
        }
    }
}

/// With the daemonize flag, the automatic command always starts itself
/// again in the background, with or without a log file: the cookie in the
/// environment variable `ME3N7HQSID`, the subcommand `automatic`, and the
/// error output to the given log file; without it, it refreshes in the
/// foreground with the given cookie.
pub proof fn law_daemonize_flag_decides(a: Automatic, cookie: N7Cookie)
    ensures
        a.daemonize ==> (a.mode(cookie) matches Mode::Daemonize(r) && r.env_var@ == "ME3N7HQSID"@ && r.cookie
            == cookie.value && r.subcommand@ == "automatic"@ && r.log_file == a.log_file),
        !a.daemonize ==> a.mode(cookie) == (Mode::Automatic { cookie: cookie.value }),
{
}

/// After a refresh, how many seconds to wait before the next one: the
/// longest remaining time of the current missions; `None` when the refresh
/// failed, which ends the loop.
pub fn inner_loop(refreshed: Option<&CurrentMissions>) -> (res: Option<u64>)
    requires
        refreshed matches Some(m) ==> m.0@.len() > 0,
    ensures
        match refreshed {
            None => res is None,
            Some(m) => res matches Some(w) && (exists|k: int|
                0 <= k < m.0@.len() && w == #[trigger] m.0@[k].remained) && (forall|k: int|
                0 <= k < m.0@.len() ==> #[trigger] m.0@[k].remained <= w),
        },
{
    match refreshed {
        None => None,
        Some(missions) => missions.longest_remaining(),
    }
}

} // verus!
