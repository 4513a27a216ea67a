//! The data embedded in the galactic readiness page, as the page script holds it.
use vstd::prelude::*;

verus! {

/// Duration, in seconds, of the missions that last one hour.
pub const ONE_HOUR_SECS: i64 = 3600;

/// A theater of war.
#[derive(Debug)]
pub struct Theater {
    pub name: String,
}

/// The five theaters of war of the galaxy.
#[derive(Debug)]
pub struct Theaters {
    pub inner: Theater,
    pub terminus: Theater,
    pub earth: Theater,
    pub outer: Theater,
    pub attican: Theater,
}

/// The definition of a mission that can be deployed.
#[derive(Debug)]
pub struct Mission {
    pub theater: String,
    pub planet: String,
    pub name: String,
    pub description: String,
    pub complete_msg: String,
    /// Length of the mission, in seconds.
    pub duration: i64,
    pub rating: String,
}

/// A mission of the player as the page reports it (times in seconds).
#[derive(Debug, Clone, Copy, PartialEq, Eq, Structural)]
pub struct PlayerMission {
    /// Unix timestamp of the deployment.
    pub start: i64,
    pub duration: i64,
    pub is_completed: bool,
    pub remained: i64,
}

/// The missions of the player: the page writes an empty list when there is
/// none, and an object keyed by mission code otherwise.
#[derive(Debug)]
pub enum EventualMissions {
    NoMission(Vec<PlayerMission>),
    Missions(Vec<(String, PlayerMission)>),
}

/// Everything the page script holds. Its keyed collections come from maps:
/// each holds a key once.
#[derive(Debug)]
pub struct Data {
    theaters: Theaters,
    /// Mission definitions keyed by mission code.
    missions: Vec<(String, Mission)>,
    player_missions: EventualMissions,
    lang: Vec<(String, String)>,
}

/// No two entries of `entries` share a key.
pub open spec fn keys_distinct<V>(entries: Seq<(String, V)>) -> bool {
    forall|i: int, j: int|
        0 <= i < entries.len() && 0 <= j < entries.len() && i != j ==> entries[i].0@
            != entries[j].0@
}

/// The codes of the missions of `defs` that last one hour, in order.
pub open spec fn one_hour_codes(defs: Seq<(String, Mission)>) -> Seq<Seq<char>>
    decreases defs.len(),
{
    if defs.len() == 0 {
        seq![]
    } else {
        let rest = one_hour_codes(defs.drop_last());
        if defs.last().1.duration == ONE_HOUR_SECS {
            rest.push(defs.last().0@)
        } else {
            rest
        }
    }
}

/// `code` is the code of a mission of `defs` that lasts one hour (3600 seconds).
pub open spec fn is_one_hour_code(defs: Seq<(String, Mission)>, code: Seq<char>) -> bool {
    exists|d: int| 0 <= d < defs.len() && defs[d].1.duration == 3600 && #[trigger] defs[d].0@ == code
}

/// The one-hour mission codes are exactly the codes of the definitions that
/// last one hour; when no code is defined twice, none is listed twice.
pub proof fn law_one_hour_codes(defs: Seq<(String, Mission)>)
    ensures
        forall|i: int| 0 <= i < one_hour_codes(defs).len() ==> is_one_hour_code(defs, #[trigger] one_hour_codes(defs)[i]),
        forall|d: int| 0 <= d < defs.len() && (#[trigger] defs[d]).1.duration == 3600 ==>
            one_hour_codes(defs).contains(defs[d].0@),
        keys_distinct(defs) ==> one_hour_codes(defs).no_duplicates(),
    decreases defs.len(),
{
    if defs.len() > 0 {
        let prev = defs.drop_last();
        law_one_hour_codes(prev);
        let cp = one_hour_codes(prev);
        let c = one_hour_codes(defs);
        let last = defs.last();
        assert forall|i: int| 0 <= i < c.len() implies is_one_hour_code(defs, #[trigger] c[i]) by {
            if i < cp.len() {
                assert(c[i] == cp[i]);
                assert(is_one_hour_code(prev, cp[i]));
                let d = choose|d: int| 0 <= d < prev.len() && prev[d].1.duration == ONE_HOUR_SECS && #[trigger] prev[d].0@ == cp[i];
                assert(defs[d] == prev[d]);
            } else {
                assert(defs[defs.len() - 1] == last);
            }
        }
        assert forall|d: int| 0 <= d < defs.len() && (#[trigger] defs[d]).1.duration == ONE_HOUR_SECS implies
            c.contains(defs[d].0@) by {
            if d < prev.len() {
                assert(defs[d] == prev[d]);
                assert(cp.contains(prev[d].0@));
                let i = choose|i: int| 0 <= i < cp.len() && cp[i] == prev[d].0@;
                assert(c[i] == cp[i]);
            } else {
                assert(c[c.len() - 1] == last.0@);
            }
        }
        if keys_distinct(defs) {
            assert(keys_distinct(prev)) by {
                assert forall|i: int, j: int|
                    0 <= i < prev.len() && 0 <= j < prev.len() && i != j implies prev[i].0@ != prev[j].0@ by {
                    assert(prev[i] == defs[i] && prev[j] == defs[j]);
                }
            }
            if last.1.duration == ONE_HOUR_SECS {
                assert forall|i: int, j: int| 0 <= i < c.len() && 0 <= j < c.len() && i != j implies c[i] != c[j] by {
                    if i < cp.len() && j < cp.len() {
                        assert(c[i] == cp[i] && c[j] == cp[j]);
                    } else if i < cp.len() {
                        assert(is_one_hour_code(prev, cp[i]));
                        let d = choose|d: int| 0 <= d < prev.len() && prev[d].1.duration == ONE_HOUR_SECS && #[trigger] prev[d].0@ == cp[i];
                        assert(defs[d] == prev[d]);
                        assert(defs[defs.len() - 1] == last);
                        assert(c[i] == cp[i]);
                    } else if j < cp.len() {
                        assert(is_one_hour_code(prev, cp[j]));
                        let d = choose|d: int| 0 <= d < prev.len() && prev[d].1.duration == ONE_HOUR_SECS && #[trigger] prev[d].0@ == cp[j];
                        assert(defs[d] == prev[d]);
                        assert(defs[defs.len() - 1] == last);
                        assert(c[j] == cp[j]);
                    }
                }
            }
        }
    }
}

/// The player missions of `e` are keyed by distinct codes.
pub open spec fn eventual_keys_distinct(e: EventualMissions) -> bool {
    e matches EventualMissions::Missions(m) ==> keys_distinct(m@)
}

/// Whether no two entries of `entries` share a key.
pub fn keys_distinct_exec<V>(entries: &Vec<(String, V)>) -> (res: bool)
    ensures
        res == keys_distinct(entries@),
{
    let n = entries.len();
    for i in 0..n
        invariant
            n == entries@.len(),
            forall|a: int, b: int| 0 <= a < i && 0 <= b < n && a != b ==> entries@[a].0@ != entries@[b].0@,
    {
        for j in 0..n
            invariant
                n == entries@.len(),
                i < n,
                forall|a: int, b: int| 0 <= a < i && 0 <= b < n && a != b ==> entries@[a].0@ != entries@[b].0@,
                forall|b: int| 0 <= b < j && b != i ==> entries@[i as int].0@ != entries@[b].0@,
        {
            if i != j && entries[i].0 == entries[j].0 {
                return false;
            }
        }
    }
    true
}

impl Data {
    #[verifier::type_invariant]
    spec fn keys_unique(self) -> bool {
        &&& keys_distinct(self.missions@)
        &&& keys_distinct(self.lang@)
        &&& eventual_keys_distinct(self.player_missions)
    }

    /// The five theaters.
    pub closed spec fn theaters_spec(self) -> Theaters {
        self.theaters
    }

    /// The mission definitions, keyed by mission code.
    pub closed spec fn missions_spec(self) -> Seq<(String, Mission)> {
        self.missions@
    }

    /// The missions of the player.
    pub closed spec fn player_missions_spec(self) -> EventualMissions {
        self.player_missions
    }

    /// The texts of the page, keyed by name.
    pub closed spec fn lang_spec(self) -> Seq<(String, String)> {
        self.lang@
    }

    /// The data made of these parts; `None` when a keyed collection holds a
    /// key twice.
    pub fn new(
        theaters: Theaters,
        missions: Vec<(String, Mission)>,
        player_missions: EventualMissions,
        lang: Vec<(String, String)>,
    ) -> (res: Option<Data>)
        ensures
            res is Some <==> keys_distinct(missions@) && keys_distinct(lang@) && eventual_keys_distinct(
                player_missions,
            ),
            res matches Some(d) ==> d.theaters_spec() == theaters && d.missions_spec() == missions@
                && d.player_missions_spec() == player_missions && d.lang_spec() == lang@,
    {
        let players_ok = match &player_missions {
            EventualMissions::NoMission(_) => true,
            EventualMissions::Missions(m) => keys_distinct_exec(m),
        };
        if players_ok && keys_distinct_exec(&missions) && keys_distinct_exec(&lang) {
            Some(Data { theaters, missions, player_missions, lang })
        } else {
            None
        }
    }

    /// The five theaters.
    pub fn theaters(&self) -> (res: &Theaters)
        ensures
            *res == self.theaters_spec(),
    {
        &self.theaters
    }

    /// The mission definitions, keyed by mission code.
    pub fn missions(&self) -> (res: &Vec<(String, Mission)>)
        ensures
            res@ == self.missions_spec(),
            keys_distinct(res@),
    {
        proof {
            use_type_invariant(self);
        }
        &self.missions
    }

    /// The missions of the player.
    pub fn player_missions(&self) -> (res: &EventualMissions)
        ensures
            *res == self.player_missions_spec(),
            eventual_keys_distinct(*res),
    {
        proof {
            use_type_invariant(self);
        }
        &self.player_missions
    }

    /// The texts of the page, keyed by name.
    pub fn lang(&self) -> (res: &Vec<(String, String)>)
        ensures
            res@ == self.lang_spec(),
            keys_distinct(res@),
    {
        proof {
            use_type_invariant(self);
        }
        &self.lang
    }

    /// The parts of the data.
    pub fn into_parts(self) -> (res: (Theaters, Vec<(String, Mission)>, EventualMissions, Vec<(String, String)>))
        ensures
            res.0 == self.theaters_spec(),
            res.1@ == self.missions_spec(),
            res.2 == self.player_missions_spec(),
            res.3@ == self.lang_spec(),
    {
        let Data { theaters, missions, player_missions, lang } = self;
        (theaters, missions, player_missions, lang)
    }

    /// The codes of the missions that last exactly one hour, each once.
    pub fn one_hour_missions(&self) -> (res: Vec<String>)
        ensures
            res.deep_view() == one_hour_codes(self.missions_spec()),
            res.deep_view().no_duplicates(),
    {
        proof {
            use_type_invariant(self);
            law_one_hour_codes(self.missions@);
        }
        let mut res: Vec<String> = Vec::new();
        let n = self.missions.len();
        for i in 0..n
            invariant
                n == self.missions@.len(),
                res.deep_view() == one_hour_codes(self.missions@.take(i as int)),
        {
            proof {
                assert(self.missions@.take(i + 1).drop_last() =~= self.missions@.take(i as int));
            }
            let entry = &self.missions[i];
            if entry.1.duration == ONE_HOUR_SECS {
                res.push(entry.0.clone());
            }
            assert(res.deep_view() =~= one_hour_codes(self.missions@.take(i + 1)));
        }
        assert(self.missions@.take(n as int) =~= self.missions@);
        res
    }
}

impl EventualMissions {
    /// The missions of the player keyed by mission code; none when the page
    /// wrote an empty list.
    pub fn get(self) -> (res: Vec<(String, PlayerMission)>)
        ensures
            res@ == (match self {
                EventualMissions::NoMission(_) => Seq::<(String, PlayerMission)>::empty(),
                EventualMissions::Missions(m) => m@,
            }),
    {
        match self {
            EventualMissions::NoMission(_) => Vec::new(),
            EventualMissions::Missions(m) => m,
        }
    }
}

impl Default for EventualMissions {
    fn default() -> (res: Self)
        ensures
            res matches EventualMissions::Missions(m) && m@.len() == 0,
    {
        EventualMissions::Missions(Vec::new())
    }
}

} // verus!
