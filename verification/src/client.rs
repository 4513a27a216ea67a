//! What the client of the N7 headquarters site decides: which missions to
//! launch, and how to read the answers of the site.
use vstd::prelude::*;
use vstd::string::*;
use crate::html::data::{keys_distinct, EventualMissions, PlayerMission as RawPlayerMission};
use crate::client::mission::names_distinct;
use crate::{Action, BASE_URL, ID_COOKIE};

pub mod mission;

verus! {

/// Length of the prefix of `BASE_URL` to which the site redirects when the
/// identifier cookie has expired.
pub const REDIRECTED_URL_BOUND: usize = 27;

/// The largest number of whole seconds that a `chrono` duration holds
/// (`i64::MAX` milliseconds).
pub const MAX_DURATION_SECS: u64 = 9_223_372_036_854_775;

/// A mission to launch on the site.
#[derive(Debug)]
pub struct Mission {
    pub name: String,
    pub action: Action,
}

impl View for Mission {
    type V = (Seq<char>, Action);

    open spec fn view(&self) -> (Seq<char>, Action) {
        (self.name@, self.action)
    }
}

/// A mission of the player, with its times in seconds.
#[derive(Debug)]
pub struct PlayerMission {
    pub name: String,
    /// Unix timestamp of the deployment.
    pub start: i64,
    pub duration: u64,
    pub is_completed: bool,
    pub remained: u64,
}

/// The missions currently deployed by the player.
#[derive(Debug)]
pub struct CurrentMissions(pub Vec<PlayerMission>);

/// Why an answer of the site is refused.
#[derive(Debug, Clone, Copy, PartialEq, Eq, Structural)]
pub enum ClientError {
    /// The site answered with another status than 200.
    UnexpectedStatus(u16),
    /// The site redirected to its base address: the cookie is expired or invalid.
    CookieExpired,
}

/// The earliest Unix timestamp that `chrono` represents: January 1 of the
/// year -262143, at midnight (`NaiveDate::MIN`).
pub const CHRONO_MIN_TIMESTAMP: i64 = -8_334_601_228_800;

/// The latest Unix timestamp that `chrono` represents: December 31 of the
/// year 262142, at 23:59:59 (`NaiveDate::MAX`).
pub const CHRONO_MAX_TIMESTAMP: i64 = 8_210_266_876_799;

/// Asks `chrono::DateTime::from_timestamp(secs, 0)` whether the timestamp is
/// in its range; the deprecated `NaiveDateTime::from_timestamp` panics exactly
/// when it returns `None`. The contract claims that the range runs from
/// `NaiveDate::MIN` at midnight to `NaiveDate::MAX` at 23:59:59, as the
/// source of `from_timestamp` and of `NaiveDate::from_num_days_from_ce_opt`
/// shows.
#[verifier::external_body]
fn timestamp_in_range(secs: i64) -> (res: bool)
    ensures
        res == (CHRONO_MIN_TIMESTAMP <= secs <= CHRONO_MAX_TIMESTAMP),
{
    chrono::DateTime::from_timestamp(secs, 0).is_some()
}

/// The view of each mission of `v`.
pub open spec fn launches(v: Seq<Mission>) -> Seq<(Seq<char>, Action)> {
    v.map_values(|m: Mission| m@)
}

/// The address the site redirects to when the cookie is not accepted.
pub open spec fn redirected_url() -> Seq<char> {
    "http://n7hq.masseffect.com/"@
}

/// The site redirects to its base address instead of answering 40X when the
/// identifier cookie has expired.
pub fn is_redirected(url: &str) -> (res: bool)
    ensures
        res == (url@ == redirected_url()),
{
    proof {
        reveal_strlit("http://n7hq.masseffect.com/galaxy_at_war/galactic_readiness/");
        reveal_strlit("http://n7hq.masseffect.com/");
    }
    let prefix = BASE_URL.substring_char(0, REDIRECTED_URL_BOUND);
    assert(prefix@ =~= redirected_url());
    String::from_str(url) == String::from_str(prefix)
}

/// `raw` can be turned into a mission of the player: `chrono` represents its
/// start, and its duration and remaining time fit a `chrono` duration (a
/// negative duration does not: it is read as a huge unsigned number).
pub open spec fn convertible(raw: RawPlayerMission) -> bool {
    &&& CHRONO_MIN_TIMESTAMP <= raw.start <= CHRONO_MAX_TIMESTAMP
    &&& 0 <= raw.duration <= MAX_DURATION_SECS
    &&& raw.remained <= MAX_DURATION_SECS
}

/// `m` is the mission of the player that `raw`, keyed by `name`, describes;
/// a negative remaining time counts as none.
pub open spec fn converts(name: Seq<char>, raw: RawPlayerMission, m: PlayerMission) -> bool {
    &&& m.name@ == name
    &&& m.start == raw.start
    &&& m.duration == raw.duration
    &&& m.is_completed == raw.is_completed
    &&& m.remained == (if raw.remained < 0 { 0 } else { raw.remained })
}

/// Every entry of `entries` is convertible.
pub open spec fn all_convertible(entries: Seq<(String, RawPlayerMission)>) -> bool {
    forall|i: int| 0 <= i < entries.len() ==> convertible(#[trigger] entries[i].1)
}

/// `missions` holds, in order, the conversions of `entries`.
pub open spec fn converts_all(entries: Seq<(String, RawPlayerMission)>, missions: Seq<PlayerMission>) -> bool {
    &&& missions.len() == entries.len()
    &&& forall|i: int| 0 <= i < entries.len() ==> converts(entries[i].0@, entries[i].1, #[trigger] missions[i])
}

/// The entries of the missions of the player.
pub open spec fn eventual_entries(e: EventualMissions) -> Seq<(String, RawPlayerMission)> {
    match e {
        EventualMissions::NoMission(_) => Seq::empty(),
        EventualMissions::Missions(m) => m@,
    }
}

/// Missions read from entries keyed by distinct codes have distinct names.
pub proof fn law_distinct_codes_give_distinct_names(
    entries: Seq<(String, RawPlayerMission)>,
    missions: Seq<PlayerMission>,
)
    requires
        converts_all(entries, missions),
        keys_distinct(entries),
    ensures
        names_distinct(missions),
{
    assert forall|i: int, j: int| 0 <= i < missions.len() && 0 <= j < missions.len() && i != j implies missions[i].name@
        != missions[j].name@ by {
        assert(converts(entries[i].0@, entries[i].1, missions[i]));
        assert(converts(entries[j].0@, entries[j].1, missions[j]));
    }
}

impl PlayerMission {
    /// The mission of the player keyed by `name`.
    pub fn from_raw(name: &String, raw: &RawPlayerMission) -> (res: PlayerMission)
        requires
            convertible(*raw),
        ensures
            converts(name@, *raw, res),
    {
        PlayerMission {
            name: name.clone(),
            start: raw.start,
            duration: raw.duration as u64,
            is_completed: raw.is_completed,
            remained: if raw.remained < 0 { 0 } else { raw.remained as u64 },
        }
    }

    /// Whether `raw` is convertible, as `chrono` answers it.
    pub fn is_convertible(raw: &RawPlayerMission) -> (res: bool)
        ensures
            res == convertible(*raw),
    {
        timestamp_in_range(raw.start) && 0 <= raw.duration && raw.duration as u64 <= MAX_DURATION_SECS
            && (raw.remained < 0 || raw.remained as u64 <= MAX_DURATION_SECS)
    }

    /// The mission of the player keyed by `name`, or `None` where `raw` is not
    /// convertible.
    pub fn try_from_raw(name: &String, raw: &RawPlayerMission) -> (res: Option<PlayerMission>)
        ensures
            res is Some <==> convertible(*raw),
            res matches Some(m) ==> converts(name@, *raw, m),
    {
        if Self::is_convertible(raw) {
            Some(Self::from_raw(name, raw))
        } else {
            None
        }
    }
}

impl CurrentMissions {
    /// The missions of the player, in the order of `entries`.
    pub fn from_raw(entries: &Vec<(String, RawPlayerMission)>) -> (res: CurrentMissions)
        requires
            all_convertible(entries@),
        ensures
            converts_all(entries@, res.0@),
    {
        let mut res: Vec<PlayerMission> = Vec::new();
        let n = entries.len();
        for i in 0..n
            invariant
                n == entries@.len(),
                all_convertible(entries@),
                res@.len() == i,
                forall|j: int| 0 <= j < i ==> converts(entries@[j].0@, entries@[j].1, #[trigger] res@[j]),
        {
            let entry = &entries[i];
            proof {
                assert(convertible(entries@[i as int].1));
            }
            res.push(PlayerMission::from_raw(&entry.0, &entry.1));
        }
        CurrentMissions(res)
    }

    /// The missions of the player that the page reports: none where it wrote
    /// an empty list.
    pub fn from_eventual(missions: &EventualMissions) -> (res: CurrentMissions)
        requires
            all_convertible(eventual_entries(*missions)),
        ensures
            converts_all(eventual_entries(*missions), res.0@),
    {
        match missions {
            EventualMissions::NoMission(_) => CurrentMissions(Vec::new()),
            EventualMissions::Missions(m) => Self::from_raw(m),
        }
    }

    /// The missions of the player that the page reports, or `None` where one
    /// of them is not convertible.
    pub fn try_from_eventual(missions: &EventualMissions) -> (res: Option<CurrentMissions>)
        ensures
            res is Some <==> all_convertible(eventual_entries(*missions)),
            res matches Some(c) ==> converts_all(eventual_entries(*missions), c.0@),
    {
        let entries: &Vec<(String, RawPlayerMission)> = match missions {
            EventualMissions::NoMission(_) => { return Some(CurrentMissions(Vec::new())); },
            EventualMissions::Missions(m) => m,
        };
        assert(entries@ == eventual_entries(*missions));
        let n = entries.len();
        for i in 0..n
            invariant
                n == entries@.len(),
                entries@ == eventual_entries(*missions),
                forall|j: int| 0 <= j < i ==> convertible(#[trigger] entries@[j].1),
        {
            if !PlayerMission::is_convertible(&entries[i].1) {
                return None;
            }
        }
        Some(Self::from_eventual(missions))
    }
}

/// Name of the query parameter that says which action to launch.
pub const ACTION_PARAM: &'static str = "ajax_action";

/// Name of the form field that says on which mission to launch it.
pub const MISSION_PARAM: &'static str = "mission_code";

/// What is sent to the site to launch a mission: a form posted to `url`.
#[derive(Debug)]
pub struct LaunchRequest {
    pub url: &'static str,
    /// Query parameter: name and value.
    pub query: (&'static str, &'static str),
    /// Form field: name and value.
    pub form: (&'static str, String),
}

/// What the site must answer to a launch to be accepted: status 200, and no
/// redirect to the base address.
pub open spec fn launch_outcome(status: u16, final_url: Seq<char>) -> Result<(), ClientError> {
    if status != 200 {
        Err(ClientError::UnexpectedStatus(status))
    } else if final_url == redirected_url() {
        Err(ClientError::CookieExpired)
    } else {
        Ok(())
    }
}

/// What the site must answer to a request for the page: no redirect to the
/// base address.
pub open spec fn page_outcome(final_url: Seq<char>) -> Result<(), ClientError> {
    if final_url == redirected_url() {
        Err(ClientError::CookieExpired)
    } else {
        Ok(())
    }
}

/// An answer with status 200 is accepted for a launch exactly when the same
/// address is accepted for the page: both refuse only the redirect to the
/// base address.
pub proof fn law_launch_and_page_agree(final_url: Seq<char>)
    ensures
        launch_outcome(200, final_url) == page_outcome(final_url),
{
}

/// The site's answer to a launch is refused for a status other than 200, and
/// with status 200 only when it ends at `http://n7hq.masseffect.com/`, where
/// the site sends an expired cookie; the answer to a page request is refused
/// only there. Any other address, such as the launch page with its query, is
/// accepted.
pub proof fn law_only_the_redirect_means_an_expired_cookie(status: u16, final_url: Seq<char>)
    ensures
        status != 200 ==> launch_outcome(status, final_url) == Err::<(), ClientError>(
            ClientError::UnexpectedStatus(status),
        ),
        status == 200 && final_url != "http://n7hq.masseffect.com/"@ ==> launch_outcome(status, final_url) == Ok::<
            (),
            ClientError,
        >(()),
        status == 200 && final_url == "http://n7hq.masseffect.com/"@ ==> launch_outcome(status, final_url) == Err::<
            (),
            ClientError,
        >(ClientError::CookieExpired),
        final_url != "http://n7hq.masseffect.com/"@ ==> page_outcome(final_url) == Ok::<(), ClientError>(()),
        final_url == "http://n7hq.masseffect.com/"@ ==> page_outcome(final_url) == Err::<(), ClientError>(
            ClientError::CookieExpired,
        ),
{
}

/// A mission of the player read from the page keeps its name, start,
/// duration and completion flag as the page gives them, whatever its
/// remaining time; only a negative remaining time is read as none.
pub proof fn law_conversion_keeps_what_the_page_says(name: Seq<char>, raw: RawPlayerMission, m: PlayerMission)
    requires
        converts(name, raw, m),
    ensures
        m.name@ == name,
        m.start == raw.start,
        m.duration as int == raw.duration as int,
        m.is_completed == raw.is_completed,
        raw.remained >= 0 ==> m.remained as int == raw.remained as int,
        raw.remained < 0 ==> m.remained == 0,
{
}

/// The site redirects an expired cookie to `http://n7hq.masseffect.com/`,
/// the first 27 characters of the launch page's address.
pub proof fn law_redirect_address()
    ensures
        redirected_url() == "http://n7hq.masseffect.com/"@,
        redirected_url() == BASE_URL@.subrange(0, 27),
{
    reveal_strlit("http://n7hq.masseffect.com/galaxy_at_war/galactic_readiness/");
    reveal_strlit("http://n7hq.masseffect.com/");
    assert(BASE_URL@.subrange(0, 27) =~= "http://n7hq.masseffect.com/"@);
}

/// A mission of the page can be read exactly when `chrono` represents its
/// start (January 1 of the year -262143 to December 31 of 262142) and its
/// duration and remaining time fit a `chrono` duration of at most
/// `i64::MAX` milliseconds, the duration being non-negative.
pub proof fn law_convertible_range(raw: RawPlayerMission)
    ensures
        convertible(raw) <==> (-8_334_601_228_800 <= raw.start <= 8_210_266_876_799 && 0 <= raw.duration
            <= 9_223_372_036_854_775 && raw.remained <= 9_223_372_036_854_775),
{
}

/// Checks the answer of the site to a launch, given its status and the
/// address it ended at.
pub fn check_launch_response(status: u16, final_url: &str) -> (res: Result<(), ClientError>)
    ensures
        res == launch_outcome(status, final_url@),
{
    if status != 200 {
        Err(ClientError::UnexpectedStatus(status))
    } else if is_redirected(final_url) {
        Err(ClientError::CookieExpired)
    } else {
        Ok(())
    }
}

/// Checks the answer of the site to a request for the page, given the
/// address it ended at.
pub fn check_page_response(final_url: &str) -> (res: Result<(), ClientError>)
    ensures
        res == page_outcome(final_url@),
{
    if is_redirected(final_url) {
        Err(ClientError::CookieExpired)
    } else {
        Ok(())
    }
}

/// The `Cookie` header that identifies the player.
pub fn cookie_header(cookie: &str) -> (res: String)
    ensures
        res@ == ID_COOKIE@ + "="@ + cookie@,
{
    let mut res = String::from_str(ID_COOKIE);
    res.append("=");
    res.append(cookie);
    res
}

impl Mission {
    /// The mission named `name`, to launch with `action`.
    pub fn new(name: &str, action: Action) -> (res: Mission)
        ensures
            res@ == (name@, action),
    {
        Mission { name: String::from_str(name), action }
    }

    /// The request that launches this mission.
    pub fn request(&self) -> (res: LaunchRequest)
        ensures
            res.url@ == BASE_URL@,
            res.query.0@ == ACTION_PARAM@,
            res.query.1@ == self.action.value_spec(),
            res.form.0@ == MISSION_PARAM@,
            res.form.1@ == self.name@,
    {
        LaunchRequest {
            url: BASE_URL,
            query: (ACTION_PARAM, self.action.value()),
            form: (MISSION_PARAM, self.name.clone()),
        }
    }

    /// The context given to an error of the launch of this mission:
    /// `failed <description of the action> for <name>`.
    pub fn failure_context(&self) -> (res: String)
        ensures
            res@ == "failed "@ + self.action.description_spec() + " for "@ + self.name@,
    {
        let mut res = String::from_str("failed ");
        res.append(self.action.description());
        res.append(" for ");
        res.append(self.name.as_str());
        res
    }
}

impl CurrentMissions {
    /// The longest remaining time of the missions, in seconds; `None` when
    /// there is no mission.
    pub fn longest_remaining(&self) -> (res: Option<u64>)
        ensures
            res is None <==> self.0@.len() == 0,
            res matches Some(r) ==> (exists|k: int| 0 <= k < self.0@.len() && r == #[trigger] self.0@[k].remained)
                && (forall|k: int| 0 <= k < self.0@.len() ==> #[trigger] self.0@[k].remained <= r),
    {
        let ms = &self.0;
        if ms.len() == 0 {
            return None;
        }
        let mut best: u64 = ms[0].remained;
        let mut at: usize = 0;
        for i in 1..ms.len()
            invariant
                at < i <= ms@.len(),
                best == ms@[at as int].remained,
                forall|k: int| 0 <= k < i ==> #[trigger] ms@[k].remained <= best,
        {
            if ms[i].remained >= best {
                best = ms[i].remained;
                at = i;
            }
        }
        Some(best)
    }
}

} // verus!
