use galactic::client::mission::plan_refresh;
use galactic::client::{
    CHRONO_MAX_TIMESTAMP, CHRONO_MIN_TIMESTAMP, check_launch_response, check_page_response, cookie_header, is_redirected, ClientError, CurrentMissions,
    Mission, PlayerMission, MAX_DURATION_SECS,
};
use galactic::html::data::{
    Data, EventualMissions, Mission as MissionDef, PlayerMission as RawPlayerMission, Theater, Theaters,
};
use galactic::{Action, BASE_URL};

#[test]
fn action_values() {
    assert_eq!(Action::Collect.value(), "collectRewards");
    assert_eq!(Action::Deploy.value(), "deployFleet");
    assert_eq!(Action::Collect.description(), "collect rewards");
    assert_eq!(Action::Deploy.description(), "deploy fleet");
}

#[test]
fn redirect_detection() {
    assert!(is_redirected("http://n7hq.masseffect.com/"));
    assert!(!is_redirected(BASE_URL));
    assert!(!is_redirected("http://n7hq.masseffect.com"));
    assert!(!is_redirected(""));
}

#[test]
fn launch_answers() {
    assert_eq!(check_launch_response(200, BASE_URL), Ok(()));
    assert_eq!(check_launch_response(404, BASE_URL), Err(ClientError::UnexpectedStatus(404)));
    assert_eq!(check_launch_response(500, "http://n7hq.masseffect.com/"), Err(ClientError::UnexpectedStatus(500)));
    assert_eq!(check_launch_response(200, "http://n7hq.masseffect.com/"), Err(ClientError::CookieExpired));
    assert_eq!(check_page_response(BASE_URL), Ok(()));
    assert_eq!(check_page_response("http://n7hq.masseffect.com/"), Err(ClientError::CookieExpired));
}

#[test]
fn cookie_and_context() {
    assert_eq!(cookie_header("abc"), "ME3N7HQSID=abc");
    let m = Mission::new("sector-1", Action::Deploy);
    assert_eq!(m.failure_context(), "failed deploy fleet for sector-1");
    let r = m.request();
    assert_eq!(r.url, BASE_URL);
    assert_eq!(r.query, ("ajax_action", "deployFleet"));
    assert_eq!(r.form, ("mission_code", String::from("sector-1")));
}

fn raw(duration: i64, is_completed: bool, remained: i64) -> RawPlayerMission {
    RawPlayerMission { start: 1_600_000_000, duration, is_completed, remained }
}

#[test]
fn player_mission_conversion() {
    let m = PlayerMission::try_from_raw(&String::from("a"), &raw(3600, false, -5)).unwrap();
    assert_eq!(m.name, "a");
    assert_eq!(m.start, 1_600_000_000);
    assert_eq!(m.duration, 3600);
    assert_eq!(m.remained, 0);
    assert!(!m.is_completed);
    let m = PlayerMission::from_raw(&String::from("b"), &raw(7200, true, 42));
    assert_eq!(m.remained, 42);
    assert!(PlayerMission::try_from_raw(&String::from("c"), &raw(-1, true, 0)).is_none());
    assert!(PlayerMission::try_from_raw(&String::from("c"), &raw(MAX_DURATION_SECS as i64 + 1, true, 0)).is_none());
    assert!(PlayerMission::try_from_raw(&String::from("c"), &raw(MAX_DURATION_SECS as i64, true, MAX_DURATION_SECS as i64)).is_some());
    let far = RawPlayerMission { start: i64::MAX, duration: 0, is_completed: true, remained: 0 };
    assert!(PlayerMission::try_from_raw(&String::from("c"), &far).is_none());
}

#[test]
fn current_missions_from_page() {
    let e = EventualMissions::Missions(vec![(String::from("a"), raw(3600, true, 0)), (String::from("b"), raw(3600, false, 10))]);
    let c = CurrentMissions::try_from_eventual(&e).unwrap();
    assert_eq!(c.0.len(), 2);
    assert_eq!(c.0[1].name, "b");
    assert!(CurrentMissions::try_from_eventual(&EventualMissions::NoMission(vec![])).unwrap().0.is_empty());
    let bad = EventualMissions::Missions(vec![(String::from("a"), raw(-3600, true, 0))]);
    assert!(CurrentMissions::try_from_eventual(&bad).is_none());
}

fn pm(name: &str, duration: u64, is_completed: bool, remained: u64) -> PlayerMission {
    PlayerMission { name: name.to_string(), start: 0, duration, is_completed, remained }
}

fn launches(v: &[Mission]) -> Vec<(String, Action)> {
    v.iter().map(|m| (m.name.clone(), m.action)).collect()
}

#[test]
fn collect_and_deploy_by_mission() {
    assert!(pm("a", 3600, false, 100).collect_and_deploy().is_empty());
    assert_eq!(
        launches(&pm("a", 3600, true, 0).collect_and_deploy()),
        vec![(String::from("a"), Action::Collect), (String::from("a"), Action::Deploy)]
    );
    // one and a half hours count as one whole hour
    assert_eq!(launches(&pm("b", 5400, true, 0).collect_and_deploy()).len(), 2);
    assert_eq!(launches(&pm("c", 7200, true, 0).collect_and_deploy()), vec![(String::from("c"), Action::Collect)]);
    assert!(pm("c", 7200, true, 0).is_longer_than_one_hour());
    assert!(!pm("b", 7199, true, 0).is_longer_than_one_hour());
}

fn def(code: &str, duration: i64) -> (String, MissionDef) {
    (
        code.to_string(),
        MissionDef {
            theater: String::new(),
            planet: String::new(),
            name: code.to_string(),
            description: String::new(),
            complete_msg: String::new(),
            duration,
            rating: String::new(),
        },
    )
}

fn data() -> Data {
    let t = || Theater { name: String::new() };
    Data::new(
        Theaters { inner: t(), terminus: t(), earth: t(), outer: t(), attican: t() },
        vec![def("h1", 3600), def("h2", 7200), def("h3", 3600)],
        EventualMissions::default(),
        vec![],
    )
    .unwrap()
}

#[test]
fn refresh_with_current_missions() {
    let missions = CurrentMissions(vec![pm("a", 3600, true, 0), pm("b", 3600, false, 50), pm("c", 86400, true, 0)]);
    let plan = launches(&plan_refresh(&missions, &data()));
    assert_eq!(
        plan,
        vec![
            (String::from("a"), Action::Collect),
            (String::from("a"), Action::Deploy),
            (String::from("c"), Action::Collect),
        ]
    );
    // every deployment comes right after the collection of the same mission
    for (j, l) in plan.iter().enumerate() {
        if l.1 == Action::Deploy {
            assert_eq!(plan[j - 1], (l.0.clone(), Action::Collect));
        }
    }
}

#[test]
fn refresh_without_missions() {
    let plan = launches(&plan_refresh(&CurrentMissions(vec![]), &data()));
    assert_eq!(plan, vec![(String::from("h1"), Action::Deploy), (String::from("h3"), Action::Deploy)]);
}

#[test]
fn refresh_with_nothing_completed() {
    let missions = CurrentMissions(vec![pm("a", 3600, false, 10)]);
    assert!(plan_refresh(&missions, &data()).is_empty());
}

#[test]
fn longest_remaining_time() {
    assert_eq!(CurrentMissions(vec![]).longest_remaining(), None);
    let missions = CurrentMissions(vec![pm("a", 3600, false, 10), pm("b", 3600, false, 300), pm("c", 3600, true, 0)]);
    assert_eq!(missions.longest_remaining(), Some(300));
}

#[test]
fn refresh_launches_each_mission_once() {
    let missions = CurrentMissions(vec![pm("a", 3600, true, 0), pm("b", 3600, true, 0), pm("c", 3600, true, 0)]);
    let plan = launches(&plan_refresh(&missions, &data()));
    assert_eq!(plan.len(), 6);
    for i in 0..plan.len() {
        for j in 0..plan.len() {
            if i != j {
                assert_ne!(plan[i], plan[j]);
            }
        }
    }
    // every completed mission is collected
    for name in ["a", "b", "c"] {
        assert!(plan.contains(&(String::from(name), Action::Collect)));
    }
}

#[test]
fn refresh_without_missions_deploys_one_hour_missions_once() {
    let plan = launches(&plan_refresh(&CurrentMissions(vec![]), &data()));
    assert!(plan.iter().all(|l| l.1 == Action::Deploy));
    assert!(plan.contains(&(String::from("h1"), Action::Deploy)));
    assert!(plan.contains(&(String::from("h3"), Action::Deploy)));
    assert!(!plan.iter().any(|l| l.0 == "h2"));
}

#[test]
fn launch_and_page_agree_on_redirects() {
    for url in [BASE_URL, "http://n7hq.masseffect.com/", "http://example.com/"] {
        assert_eq!(check_launch_response(200, url), check_page_response(url));
    }
}

#[test]
fn chrono_timestamp_range() {
    let at = |start: i64| RawPlayerMission { start, duration: 0, is_completed: false, remained: 0 };
    let name = String::from("m");
    assert!(PlayerMission::try_from_raw(&name, &at(0)).is_some());
    assert!(PlayerMission::try_from_raw(&name, &at(CHRONO_MIN_TIMESTAMP)).is_some());
    assert!(PlayerMission::try_from_raw(&name, &at(CHRONO_MAX_TIMESTAMP)).is_some());
    assert!(PlayerMission::try_from_raw(&name, &at(CHRONO_MIN_TIMESTAMP - 1)).is_none());
    assert!(PlayerMission::try_from_raw(&name, &at(CHRONO_MAX_TIMESTAMP + 1)).is_none());
    assert!(chrono::DateTime::from_timestamp(CHRONO_MIN_TIMESTAMP, 0).is_some());
    assert!(chrono::DateTime::from_timestamp(CHRONO_MIN_TIMESTAMP - 1, 0).is_none());
    assert!(chrono::DateTime::from_timestamp(CHRONO_MAX_TIMESTAMP, 0).is_some());
    assert!(chrono::DateTime::from_timestamp(CHRONO_MAX_TIMESTAMP + 1, 0).is_none());
}
