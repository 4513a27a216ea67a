//! Which missions to launch when refreshing the missions of the player.
use vstd::prelude::*;
use crate::client::{launches, CurrentMissions, Mission, PlayerMission};
use crate::html::data::{
    is_one_hour_code, keys_distinct, law_one_hour_codes, one_hour_codes, Data, Mission as MissionDef,
};
use crate::Action;

verus! {

/// Number of seconds in an hour.
pub const SECS_PER_HOUR: u64 = 3600;

/// The mission lasts more than one hour, counted in whole hours.
pub open spec fn longer_than_one_hour(m: PlayerMission) -> bool {
    m.duration / SECS_PER_HOUR > 1
}

/// What is launched for one mission of the player: nothing while it is not
/// completed; otherwise its rewards are collected, and its fleet deployed
/// again unless it lasts more than one hour (a one-hour mission should then
/// be launched in that sector by hand).
pub open spec fn mission_launches(m: PlayerMission) -> Seq<(Seq<char>, Action)> {
    if !m.is_completed {
        seq![]
    } else if longer_than_one_hour(m) {
        seq![(m.name@, Action::Collect)]
    } else {
        seq![(m.name@, Action::Collect), (m.name@, Action::Deploy)]
    }
}

/// `launch` is for the mission `m`.
pub open spec fn targets(launch: (Seq<char>, Action), m: PlayerMission) -> bool {
    launch.0 == m.name@
}

/// What is launched for each mission of `ms`, in order.
pub open spec fn completed_launches(ms: Seq<PlayerMission>) -> Seq<(Seq<char>, Action)>
    decreases ms.len(),
{
    if ms.len() == 0 {
        seq![]
    } else {
        completed_launches(ms.drop_last()) + mission_launches(ms.last())
    }
}

/// What a refresh launches: for current missions, the launches of each of
/// them; without any, a deployment of every mission that lasts one hour.
pub open spec fn refresh_launches(
    ms: Seq<PlayerMission>,
    defs: Seq<(String, MissionDef)>,
) -> Seq<(Seq<char>, Action)> {
    if ms.len() != 0 {
        completed_launches(ms)
    } else {
        one_hour_codes(defs).map_values(|code: Seq<char>| (code, Action::Deploy))
    }
}

/// Pushes a launch of `action` for the mission named `name`.
fn push_launch(out: &mut Vec<Mission>, name: &String, action: Action)
    ensures
        launches(final(out)@) == launches(old(out)@).push((name@, action)),
{
    out.push(Mission { name: name.clone(), action });
    assert(launches(final(out)@) =~= launches(old(out)@).push((name@, action)));
}

impl PlayerMission {
    /// Whether the mission lasts more than one hour, in whole hours.
    pub fn is_longer_than_one_hour(&self) -> (res: bool)
        ensures
            res == longer_than_one_hour(*self),
    {
        self.duration / SECS_PER_HOUR > 1
    }

    /// Pushes what is launched for this mission.
    fn push_launches(&self, out: &mut Vec<Mission>)
        ensures
            launches(final(out)@) == launches(old(out)@) + mission_launches(*self),
    {
        let ghost start = launches(out@);
        if !self.is_completed {
            assert(start + mission_launches(*self) =~= start);
            return;
        }
        push_launch(out, &self.name, Action::Collect);
        if self.is_longer_than_one_hour() {
            assert(start.push((self.name@, Action::Collect)) =~= start + mission_launches(*self));
            return;
        }
        push_launch(out, &self.name, Action::Deploy);
        assert(start.push((self.name@, Action::Collect)).push((self.name@, Action::Deploy))
            =~= start + mission_launches(*self));
    }

    /// The missions to launch for this mission of the player, in order.
    pub fn collect_and_deploy(&self) -> (res: Vec<Mission>)
        ensures
            launches(res@) == mission_launches(*self),
    {
        let mut res: Vec<Mission> = Vec::new();
        self.push_launches(&mut res);
        assert(launches(Seq::<Mission>::empty()) + mission_launches(*self) =~= mission_launches(*self));
        res
    }
}

/// The missions that a refresh launches, in order, given the current
/// missions of the player and the data of the page.
pub fn plan_refresh(missions: &CurrentMissions, data: &Data) -> (res: Vec<Mission>)
    ensures
        launches(res@) == refresh_launches(missions.0@, data.missions_spec()),
        missions.0@.len() == 0 ==> launches(res@).no_duplicates(),
{
    let mut res: Vec<Mission> = Vec::new();
    let ms = &missions.0;
    let n = ms.len();
    if n != 0 {
        for i in 0..n
            invariant
                n == ms@.len(),
                launches(res@) == completed_launches(ms@.take(i as int)),
        {
            proof {
                assert(ms@.take(i + 1).drop_last() =~= ms@.take(i as int));
            }
            ms[i].push_launches(&mut res);
        }
        assert(ms@.take(n as int) =~= ms@);
    } else {
        let codes = data.one_hour_missions();
        let k = codes.len();
        for i in 0..k
            invariant
                k == codes@.len(),
                codes.deep_view() == one_hour_codes(data.missions_spec()),
                launches(res@) == codes.deep_view().take(i as int).map_values(
                    |code: Seq<char>| (code, Action::Deploy),
                ),
        {
            push_launch(&mut res, &codes[i], Action::Deploy);
            assert(codes.deep_view()[i as int] == codes@[i as int]@);
            assert(launches(res@) =~= codes.deep_view().take(i + 1).map_values(
                |code: Seq<char>| (code, Action::Deploy),
            ));
        }
        assert(codes.deep_view().take(k as int) =~= codes.deep_view());
        let defs = data.missions();
        proof {
            law_refresh_without_missions(missions.0@, data.missions_spec());
            assert(keys_distinct(defs@));
            assert(launches(res@) =~= refresh_launches(missions.0@, data.missions_spec()));
        }
    }
    res
}

/// Every launch of `l` is for a completed mission of `ms`.
pub open spec fn only_completed(l: Seq<(Seq<char>, Action)>, ms: Seq<PlayerMission>) -> bool {
    forall|j: int| #![trigger l[j]]
        0 <= j < l.len() ==> exists|k: int|
            0 <= k < ms.len() && ms[k].is_completed && targets(l[j], #[trigger] ms[k])
}

proof fn lemma_launches_target_completed(ms: Seq<PlayerMission>)
    ensures
        only_completed(completed_launches(ms), ms),
    decreases ms.len(),
{
    if ms.len() > 0 {
        let prev = ms.drop_last();
        let m = ms.last();
        lemma_launches_target_completed(prev);
        let lp = completed_launches(prev);
        let lm = mission_launches(m);
        let l = completed_launches(ms);
        assert(l == lp + lm);
        assert forall|j: int| #![trigger l[j]] 0 <= j < l.len() implies exists|k: int|
            0 <= k < ms.len() && ms[k].is_completed && targets(l[j], #[trigger] ms[k]) by {
            if j < lp.len() {
                assert(l[j] == lp[j]);
                let k = choose|k: int|
                    0 <= k < prev.len() && prev[k].is_completed && targets(lp[j], #[trigger] prev[k]);
                assert(ms[k] == prev[k]);
            } else {
                assert(l[j] == lm[j - lp.len()]);
                assert(ms[ms.len() - 1] == m);
                assert(m.is_completed);
            }
        }
        assert(only_completed(l, ms));
    }
}

proof fn lemma_launches_deploy_after_collect(ms: Seq<PlayerMission>)
    ensures
        forall|j: int|
            0 <= j < completed_launches(ms).len() && (#[trigger] completed_launches(ms)[j]).1
                == Action::Deploy ==> j > 0 && completed_launches(ms)[j - 1] == (
                completed_launches(ms)[j].0,
                Action::Collect,
            ),
    decreases ms.len(),
{
    if ms.len() > 0 {
        let prev = ms.drop_last();
        let m = ms.last();
        lemma_launches_deploy_after_collect(prev);
        let lp = completed_launches(prev);
        let lm = mission_launches(m);
        let l = completed_launches(ms);
        assert(l == lp + lm);
        assert forall|j: int| 0 <= j < l.len() && (#[trigger] l[j]).1 == Action::Deploy implies j > 0
            && l[j - 1] == (l[j].0, Action::Collect) by {
            if j < lp.len() {
                assert(l[j] == lp[j]);
                assert(l[j - 1] == lp[j - 1]);
            } else {
                assert(l[j] == lm[j - lp.len()]);
                assert(l[j - 1] == lm[j - 1 - lp.len()]);
            }
        }
    }
}

proof fn lemma_launches_collect_completed(ms: Seq<PlayerMission>)
    ensures
        forall|k: int| 0 <= k < ms.len() && (#[trigger] ms[k]).is_completed ==> exists|j: int|
            #![trigger completed_launches(ms)[j]]
            0 <= j < completed_launches(ms).len() && completed_launches(ms)[j] == (
                ms[k].name@,
                Action::Collect,
            ),
    decreases ms.len(),
{
    if ms.len() > 0 {
        let prev = ms.drop_last();
        let m = ms.last();
        lemma_launches_collect_completed(prev);
        let lp = completed_launches(prev);
        let lm = mission_launches(m);
        let l = completed_launches(ms);
        assert(l == lp + lm);
        assert forall|k: int| 0 <= k < ms.len() && (#[trigger] ms[k]).is_completed implies exists|j: int|
            #![trigger l[j]] 0 <= j < l.len() && l[j] == (ms[k].name@, Action::Collect) by {
            if k < prev.len() {
                assert(ms[k] == prev[k]);
                let j = choose|j: int|
                    #![trigger lp[j]] 0 <= j < lp.len() && lp[j] == (prev[k].name@, Action::Collect);
                assert(l[j] == lp[j]);
            } else {
                assert(ms[k] == m);
                assert(l[lp.len() as int] == lm[0]);
            }
        }
    }
}

/// In a refresh of current missions, every launch is for one of them that is
/// completed: a mission still under way is left alone.
pub proof fn law_refresh_only_touches_completed_missions(
    ms: Seq<PlayerMission>,
    defs: Seq<(String, MissionDef)>,
)
    requires
        ms.len() > 0,
    ensures
        only_completed(refresh_launches(ms, defs), ms),
{
    lemma_launches_target_completed(ms);
}

/// In a refresh of current missions, a fleet is deployed only right after
/// the rewards of the same mission were collected.
pub proof fn law_refresh_deploys_right_after_collecting(
    ms: Seq<PlayerMission>,
    defs: Seq<(String, MissionDef)>,
)
    requires
        ms.len() > 0,
    ensures
        forall|j: int|
            0 <= j < refresh_launches(ms, defs).len() && (#[trigger] refresh_launches(ms, defs)[j]).1
                == Action::Deploy ==> j > 0 && refresh_launches(ms, defs)[j - 1] == (
                refresh_launches(ms, defs)[j].0,
                Action::Collect,
            ),
{
    lemma_launches_deploy_after_collect(ms);
}

/// In a refresh of current missions, the rewards of every completed mission
/// are collected.
pub proof fn law_refresh_collects_every_completed_mission(
    ms: Seq<PlayerMission>,
    defs: Seq<(String, MissionDef)>,
)
    requires
        ms.len() > 0,
    ensures
        forall|k: int| 0 <= k < ms.len() && (#[trigger] ms[k]).is_completed ==> exists|j: int|
            #![trigger refresh_launches(ms, defs)[j]]
            0 <= j < refresh_launches(ms, defs).len() && refresh_launches(ms, defs)[j] == (
                ms[k].name@,
                Action::Collect,
            ),
{
    lemma_launches_collect_completed(ms);
    let l = refresh_launches(ms, defs);
    assert forall|k: int| 0 <= k < ms.len() && (#[trigger] ms[k]).is_completed implies exists|j: int|
        #![trigger l[j]] 0 <= j < l.len() && l[j] == (ms[k].name@, Action::Collect) by {
        let j = choose|j: int|
            #![trigger completed_launches(ms)[j]]
            0 <= j < completed_launches(ms).len() && completed_launches(ms)[j] == (
                ms[k].name@,
                Action::Collect,
            );
        assert(l[j] == completed_launches(ms)[j]);
    }
}

/// A refresh without current missions collects nothing and deploys the
/// fleets of exactly the missions that last one hour, each once when no
/// mission code is defined twice.
pub proof fn law_refresh_without_missions(ms: Seq<PlayerMission>, defs: Seq<(String, MissionDef)>)
    requires
        ms.len() == 0,
    ensures
        forall|j: int| #![trigger refresh_launches(ms, defs)[j]]
            0 <= j < refresh_launches(ms, defs).len() ==> refresh_launches(ms, defs)[j].1
                == Action::Deploy && is_one_hour_code(defs, refresh_launches(ms, defs)[j].0),
        forall|d: int| 0 <= d < defs.len() && (#[trigger] defs[d]).1.duration == 3600
            ==> refresh_launches(ms, defs).contains((defs[d].0@, Action::Deploy)),
        keys_distinct(defs) ==> refresh_launches(ms, defs).no_duplicates(),
{
    law_one_hour_codes(defs);
    let codes = one_hour_codes(defs);
    let l = refresh_launches(ms, defs);
    assert(l == codes.map_values(|code: Seq<char>| (code, Action::Deploy)));
    assert forall|j: int| #![trigger l[j]] 0 <= j < l.len() implies l[j].1 == Action::Deploy
        && is_one_hour_code(defs, l[j].0) by {
        assert(l[j] == (codes[j], Action::Deploy));
    }
    assert forall|d: int| 0 <= d < defs.len() && (#[trigger] defs[d]).1.duration == 3600
        implies l.contains((defs[d].0@, Action::Deploy)) by {
        assert(codes.contains(defs[d].0@));
        let i = choose|i: int| 0 <= i < codes.len() && codes[i] == defs[d].0@;
        assert(l[i] == (codes[i], Action::Deploy));
    }
    if keys_distinct(defs) {
        assert forall|i: int, j: int| 0 <= i < l.len() && 0 <= j < l.len() && i != j implies l[i] != l[j] by {
            assert(l[i] == (codes[i], Action::Deploy));
            assert(l[j] == (codes[j], Action::Deploy));
        }
    }
}

/// No two missions of `ms` share a name.
pub open spec fn names_distinct(ms: Seq<PlayerMission>) -> bool {
    forall|i: int, j: int| 0 <= i < ms.len() && 0 <= j < ms.len() && i != j ==> ms[i].name@ != ms[j].name@
}

proof fn lemma_launches_distinct(ms: Seq<PlayerMission>)
    requires
        names_distinct(ms),
    ensures
        completed_launches(ms).no_duplicates(),
    decreases ms.len(),
{
    if ms.len() > 0 {
        let prev = ms.drop_last();
        let m = ms.last();
        assert(names_distinct(prev)) by {
            assert forall|i: int, j: int| 0 <= i < prev.len() && 0 <= j < prev.len() && i != j implies prev[i].name@
                != prev[j].name@ by {
                assert(prev[i] == ms[i] && prev[j] == ms[j]);
            }
        }
        lemma_launches_distinct(prev);
        lemma_launches_target_completed(prev);
        let lp = completed_launches(prev);
        let lm = mission_launches(m);
        let l = completed_launches(ms);
        assert(l == lp + lm);
        assert forall|i: int, j: int| 0 <= i < l.len() && 0 <= j < l.len() && i != j implies l[i] != l[j] by {
            if i < lp.len() && j < lp.len() {
                assert(l[i] == lp[i] && l[j] == lp[j]);
            } else if i >= lp.len() && j >= lp.len() {
                assert(l[i] == lm[i - lp.len()] && l[j] == lm[j - lp.len()]);
            } else {
                let (a, b) = if i < lp.len() { (i, j) } else { (j, i) };
                assert(l[a] == lp[a]);
                assert(l[b] == lm[b - lp.len()]);
                let k = choose|k: int| 0 <= k < prev.len() && prev[k].is_completed && targets(lp[a], #[trigger] prev[k]);
                assert(prev[k] == ms[k]);
                assert(ms[ms.len() - 1] == m);
                assert(ms[k].name@ != ms[ms.len() - 1].name@);
            }
        }
    }
}

/// In a refresh of current missions that do not share a name, no mission is
/// launched twice for the same action.
pub proof fn law_refresh_launches_once(ms: Seq<PlayerMission>, defs: Seq<(String, MissionDef)>)
    requires
        ms.len() > 0,
        names_distinct(ms),
    ensures
        refresh_launches(ms, defs).no_duplicates(),
{
    lemma_launches_distinct(ms);
}

/// A completed mission gets its rewards collected, first; its fleet is
/// deployed again, right after, exactly when it lasts at most one whole hour
/// (less than two hours), so a mission of two hours or more is only collected.
/// A mission still under way gets nothing.
pub proof fn law_redeploy_only_short_missions(m: PlayerMission)
    ensures
        !m.is_completed ==> mission_launches(m).len() == 0,
        m.is_completed ==> mission_launches(m).len() >= 1 && mission_launches(m)[0] == (m.name@, Action::Collect),
        m.is_completed ==> (mission_launches(m).contains((m.name@, Action::Deploy)) <==> m.duration / 3600 <= 1),
        m.is_completed && m.duration < 7200 ==> mission_launches(m) == seq![
            (m.name@, Action::Collect),
            (m.name@, Action::Deploy),
        ],
        m.is_completed && m.duration >= 7200 ==> mission_launches(m) == seq![(m.name@, Action::Collect)],
{
    if m.is_completed {
        if m.duration / 3600 <= 1 {
            assert(mission_launches(m)[1] == (m.name@, Action::Deploy));
        } else {
            assert(mission_launches(m).len() == 1);
            assert(mission_launches(m)[0] != (m.name@, Action::Deploy));
        }
    }
}

/// In a refresh of current missions with distinct names, the fleet of a
/// mission is deployed again exactly when it is completed and lasts less than
/// two hours.
pub proof fn law_refresh_redeploys_only_short_completed_missions(
    ms: Seq<PlayerMission>,
    defs: Seq<(String, MissionDef)>,
    k: int,
)
    requires
        ms.len() > 0,
        names_distinct(ms),
        0 <= k < ms.len(),
    ensures
        refresh_launches(ms, defs).contains((ms[k].name@, Action::Deploy)) <==> (ms[k].is_completed
            && ms[k].duration < 7200),
        ms[k].is_completed ==> refresh_launches(ms, defs).contains((ms[k].name@, Action::Collect)),
{
    lemma_launches_of_name(ms, k);
    law_redeploy_only_short_missions(ms[k]);
    lemma_launches_collect_completed(ms);
    if ms[k].is_completed {
        let j = choose|j: int|
            #![trigger completed_launches(ms)[j]]
            0 <= j < completed_launches(ms).len() && completed_launches(ms)[j] == (
                ms[k].name@,
                Action::Collect,
            );
        assert(refresh_launches(ms, defs)[j] == (ms[k].name@, Action::Collect));
    }
}

/// The launches of a refresh that name `ms[k]` are those of `ms[k]` alone,
/// when names are distinct.
proof fn lemma_launches_of_name(ms: Seq<PlayerMission>, k: int)
    requires
        names_distinct(ms),
        0 <= k < ms.len(),
    ensures
        completed_launches(ms).contains((ms[k].name@, Action::Deploy)) <==> mission_launches(ms[k]).contains(
            (ms[k].name@, Action::Deploy),
        ),
    decreases ms.len(),
{
    let prev = ms.drop_last();
    let m = ms.last();
    let lp = completed_launches(prev);
    let lm = mission_launches(m);
    let l = completed_launches(ms);
    let target = (ms[k].name@, Action::Deploy);
    assert(l == lp + lm);
    assert(names_distinct(prev)) by {
        assert forall|i: int, j: int| 0 <= i < prev.len() && 0 <= j < prev.len() && i != j implies prev[i].name@
            != prev[j].name@ by {
            assert(prev[i] == ms[i] && prev[j] == ms[j]);
        }
    }
    if k < ms.len() - 1 {
        assert(prev[k] == ms[k]);
        lemma_launches_of_name(prev, k);
        // the last mission has another name, so none of its launches is the target
        assert(!lm.contains(target)) by {
            if lm.contains(target) {
                let i = choose|i: int| 0 <= i < lm.len() && lm[i] == target;
                assert(lm[i].0 == m.name@);
                assert(ms[ms.len() - 1] == m);
            }
        }
        if l.contains(target) {
            let i = choose|i: int| 0 <= i < l.len() && l[i] == target;
            if i < lp.len() {
                assert(lp[i] == target);
            } else {
                assert(lm[i - lp.len()] == target);
            }
        }
        if lp.contains(target) {
            let i = choose|i: int| 0 <= i < lp.len() && lp[i] == target;
            assert(l[i] == target);
        }
    } else {
        assert(ms[k] == m);
        // no earlier mission has this name, so none of their launches is the target
        lemma_launches_target_completed(prev);
        assert(!lp.contains(target)) by {
            if lp.contains(target) {
                let i = choose|i: int| 0 <= i < lp.len() && lp[i] == target;
                let j = choose|j: int| 0 <= j < prev.len() && prev[j].is_completed && targets(lp[i], #[trigger] prev[j]);
                assert(prev[j] == ms[j]);
            }
        }
        if l.contains(target) {
            let i = choose|i: int| 0 <= i < l.len() && l[i] == target;
            if i < lp.len() {
                assert(lp[i] == target);
            } else {
                assert(lm[i - lp.len()] == target);
            }
        }
        if lm.contains(target) {
            let i = choose|i: int| 0 <= i < lm.len() && lm[i] == target;
            assert(l[i + lp.len()] == target);
        }
    }
}

} // verus!
