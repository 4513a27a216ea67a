use galactic::client::{CurrentMissions, PlayerMission};
use galactic::cmd::automatic::{inner_loop, AUTOMATIC_SUBCOMMAND};
use galactic::cmd::{Automatic, Command, Mode, N7Cookie, Refresh};

fn cookie() -> N7Cookie {
    N7Cookie { value: String::from("secret") }
}

#[test]
fn refresh_mode() {
    match Command::Refresh(Refresh { value: None }).run(cookie()) {
        Mode::RefreshOnce { cookie } => assert_eq!(cookie, "secret"),
        other => panic!("unexpected {:?}", other),
    }
}

#[test]
fn automatic_modes() {
    match Command::Automatic(Automatic { daemonize: false, log_file: None }).run(cookie()) {
        Mode::Automatic { cookie } => assert_eq!(cookie, "secret"),
        other => panic!("unexpected {:?}", other),
    }
    let log = std::path::PathBuf::from("/tmp/galactic.log");
    match Command::Automatic(Automatic { daemonize: true, log_file: Some(log.clone()) }).run(cookie()) {
        Mode::Daemonize(relaunch) => {
            assert_eq!(relaunch.env_var, "ME3N7HQSID");
            assert_eq!(relaunch.cookie, "secret");
            assert_eq!(relaunch.subcommand, AUTOMATIC_SUBCOMMAND);
            assert_eq!(relaunch.subcommand, "automatic");
            assert_eq!(relaunch.log_file, Some(log));
        }
        other => panic!("unexpected {:?}", other),
    }
}

#[test]
fn daemonize_exit_codes() {
    assert_eq!(Automatic::daemonize(true), 0);
    assert_eq!(Automatic::daemonize(false), 1);
}

#[test]
fn automatic_waits_for_longest_mission() {
    let pm = |remained: u64| PlayerMission { name: String::from("m"), start: 0, duration: 3600, is_completed: false, remained };
    let missions = CurrentMissions(vec![pm(5), pm(3000), pm(20)]);
    assert_eq!(inner_loop(Some(&missions)), Some(3000));
    assert_eq!(inner_loop(None), None);
}
