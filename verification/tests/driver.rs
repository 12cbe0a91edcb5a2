use fungi_transport::addr::OnionAddr;
use fungi_transport::arti::{dir_or_default, ArtiConfig, EnvDir};
use fungi_transport::cli::{Cmd, FilePath};
use fungi_transport::driver::{
    job_of, on_outcome, start_dial, start_listen, Drive, Job, ListenParams, Outcome, Phase,
    ACCEPT_TIMEOUT_SECS, STEP_TIMEOUT_SECS,
};
use fungi_transport::framed::DEFAULT_MAX_MSG_LEN;

fn texts(list: &[&str]) -> Vec<String> {
    list.iter().map(|text| String::from(*text)).collect()
}

fn awaits(print: &[&str], phase: Phase, timeout_secs: u64) -> Drive {
    Drive::Await {
        print: texts(print),
        phase,
        timeout_secs,
    }
}

fn exits(print: &[&str], result: Result<(), &str>) -> Drive {
    Drive::Exit {
        print: texts(print),
        result: result.map_err(String::from),
    }
}

fn done(text: &str) -> Outcome {
    Outcome::Done(String::from(text))
}

#[test]
fn config_defaults_max_msg_len() {
    let cfg = ArtiConfig::new("s1", std::path::PathBuf::from("c1"));
    assert_eq!(cfg.max_msg_len, DEFAULT_MAX_MSG_LEN);
    assert_eq!(cfg.max_msg_len, 1_048_576);
    let copy = cfg.clone();
    assert_eq!(copy.state_dir, std::path::Path::new("s1"));
    assert_eq!(copy.cache_dir, std::path::Path::new("c1"));
    assert_eq!(copy.max_msg_len, cfg.max_msg_len);
}

#[test]
fn plugin_directories_come_from_the_environment() {
    let (state, cache) = (EnvDir::state(), EnvDir::cache());
    assert_eq!(state.var, "FUNGI_ARTI_STATE_DIR");
    assert_eq!(state.default_leaf, "fungi-arti-state");
    assert_eq!(cache.var, "FUNGI_ARTI_CACHE_DIR");
    assert_eq!(cache.default_leaf, "fungi-arti-cache");
    assert_eq!(
        dir_or_default(Some(String::from("dir")), "/tmp", &state.default_leaf),
        FilePath::Whole(String::from("dir"))
    );
    assert_eq!(
        dir_or_default(None, "/tmp", &state.default_leaf),
        FilePath::Under {
            dir: String::from("/tmp"),
            leaf: String::from("fungi-arti-state")
        }
    );
}

#[test]
fn listening_publishes_accepts_and_echoes() {
    assert_eq!(start_listen(), awaits(&[], Phase::Listen, 300));
    assert_eq!(
        on_outcome(Phase::Listen, done("peer.onion:9735")),
        awaits(&["ONION=peer.onion:9735", "READY"], Phase::Accept, 900)
    );
    assert_eq!(
        on_outcome(Phase::Accept, done("")),
        awaits(&[], Phase::Echo, 300)
    );
    assert_eq!(on_outcome(Phase::Echo, done("")), exits(&[], Ok(())));
}

#[test]
fn dialing_connects_and_says_ok() {
    assert_eq!(start_dial(), awaits(&[], Phase::Connect, 300));
    assert_eq!(
        on_outcome(Phase::Connect, done("")),
        awaits(&[], Phase::Sequence, 300)
    );
    assert_eq!(on_outcome(Phase::Sequence, done("")), exits(&["OK"], Ok(())));
}

#[test]
fn step_that_does_not_succeed_ends_the_program() {
    for (phase, text) in [
        (Phase::Listen, "listen timed out"),
        (Phase::Accept, "accept timed out"),
        (Phase::Echo, "echo/dial phase timed out"),
        (Phase::Connect, "connect timed out"),
        (Phase::Sequence, "echo/dial phase timed out"),
    ] {
        assert_eq!(on_outcome(phase, Outcome::TimedOut), exits(&[], Err(text)));
        assert_eq!(
            on_outcome(phase, Outcome::Failed(String::from("broken"))),
            exits(&[], Err("broken"))
        );
    }
}

#[test]
fn accepting_outlasts_every_other_step() {
    assert_eq!(STEP_TIMEOUT_SECS, 300);
    assert_eq!(ACCEPT_TIMEOUT_SECS, 900);
}

#[test]
fn service_of_the_programs_has_a_nickname() {
    let params = ListenParams::new(1);
    assert_eq!(params.virt_port, 1);
    assert_eq!(params.nickname, None);
    let params = params.with_nickname("n");
    assert_eq!(params.nickname.as_deref(), Some("n"));
    assert_eq!(
        job_of(Cmd::Listen { virt_port: 9735 }),
        Job::Listen(ListenParams::new(9735).with_nickname("fungie2e"))
    );
    let target = OnionAddr::new("peer.onion", 7);
    assert_eq!(
        job_of(Cmd::Dial {
            target: target.clone()
        }),
        Job::Dial(target)
    );
}
