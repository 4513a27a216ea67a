//! The commands of the program, and what each of them sets out to do.
use vstd::prelude::*;
use std::path::PathBuf;

pub mod automatic;
pub mod refresh;

pub use automatic::{Automatic, Relaunch};
pub use refresh::Refresh;

verus! {

/// A path of the file system.
#[verifier::external_type_specification]
#[verifier::external_body]
pub struct ExPathBuf(PathBuf);

/// The identifier cookie for n7hq.masseffect.com.
#[derive(Debug)]
pub struct N7Cookie {
    pub value: String,
}

/// Deploy missions and collect the rewards for galactic readiness in Mass
/// Effect 3. The identifier cookie of the site expires in a few hours, but
/// running the program once or twice a day should be enough.
#[derive(Debug)]
pub enum Command {
    Refresh(Refresh),
    Automatic(Automatic),
}

/// What the program sets out to do.
#[derive(Debug)]
pub enum Mode {
    /// Refresh every mission once, then quit.
    RefreshOnce { cookie: String },
    /// Start the program again in the background, to refresh automatically.
    Daemonize(Relaunch),
    /// Refresh every mission until the cookie expires.
    Automatic { cookie: String },
}

impl Command {
    /// What the command sets out to do with the identifier cookie `cookie`.
    pub fn run(self, cookie: N7Cookie) -> (res: Mode)
        ensures
            match self {
                Command::Refresh(r) => res == r.mode(cookie),
                Command::Automatic(a) => res == a.mode(cookie),
            },
    {
        match self {
            Command::Refresh(r) => r.run(cookie),
            Command::Automatic(a) => a.run(cookie),
        }
    }
}

/// The command decides the mode: the refresh command refreshes once, the
/// automatic one starts itself again in the background exactly when asked
/// to, and refreshes in the foreground otherwise; every mode carries the
/// given cookie.
pub proof fn law_command_modes(c: Command, cookie: N7Cookie)
    ensures
        c matches Command::Refresh(r) ==> r.mode(cookie) == (Mode::RefreshOnce { cookie: cookie.value }),
        c matches Command::Automatic(a) ==> (a.daemonize <==> a.mode(cookie) is Daemonize),
        c matches Command::Automatic(a) ==> match a.mode(cookie) {
            Mode::Daemonize(r) => r.cookie == cookie.value && r.log_file == a.log_file,
            Mode::Automatic { cookie: v } => v == cookie.value,
            Mode::RefreshOnce { .. } => false,
        },
{
}

} // verus!
