use fungi_transport::addr::OnionAddr;
use fungi_transport::cli::{backend_complaint, BackendKind, Cmd, FilePath};
use fungi_transport::driver::Outcome;
use fungi_transport::framed::DEFAULT_MAX_MSG_LEN;
use fungi_transport::harness::plugin_env;
use fungi_transport::{e2e, harness};

fn args(list: &[&str]) -> Vec<String> {
    list.iter().map(|arg| String::from(*arg)).collect()
}

/// `--plugin <path>` is required: without it the parse fails.
#[test]
fn cli_parsing_rejects_missing_plugin() {
    assert!(harness::parse_args(
        ["fungi-harness", "listen", "--virt-port", "1"]
            .map(String::from)
            .to_vec()
    )
    .is_err());
}

/// `--plugin <path>` populates the plugin field with the binary to drive.
#[test]
fn cli_parsing_accepts_plugin_path() {
    let cli = harness::parse_args(
        [
            "fungi-harness",
            "listen",
            "--plugin",
            "/nix/store/xxx/bin/fungi-arti-plugin",
            "--virt-port",
            "9735",
        ]
        .map(String::from)
        .to_vec(),
    )
    .unwrap();
    assert_eq!(
        std::path::Path::new(&cli.plugin),
        std::path::Path::new("/nix/store/xxx/bin/fungi-arti-plugin")
    );
    assert_eq!(cli.cmd, Cmd::Listen { virt_port: 9735 });
}

/// The generic flags parse without a backend selector: `--state-dir` and
/// `--private-net` are backend-agnostic and reach the plugin via env.
#[test]
fn cli_parsing_accepts_generic_flags() {
    let cli = harness::parse_args(
        [
            "fungi-harness",
            "dial",
            "--plugin",
            "/nix/store/xxx/bin/fungi-socks5h-plugin",
            "--private-net",
            "/tmp/private-net",
            "--state-dir",
            "/tmp/arti-dial",
            "host.onion:9735",
        ]
        .map(String::from)
        .to_vec(),
    )
    .unwrap();
    assert_eq!(
        cli.private_net.as_deref().map(std::path::Path::new),
        Some(std::path::Path::new("/tmp/private-net"))
    );
    assert_eq!(
        cli.state_dir.as_deref().map(std::path::Path::new),
        Some(std::path::Path::new("/tmp/arti-dial"))
    );
    assert_eq!(
        cli.cmd,
        Cmd::Dial {
            target: OnionAddr::new("host.onion", 9735)
        }
    );
}

#[test]
fn cli_parsing_rejects_missing_backend() {
    assert!(e2e::parse_args(
        ["fungi-e2e", "listen", "--virt-port", "1"]
            .map(String::from)
            .to_vec()
    )
    .is_err());
}

fn harness_complaint(list: &[&str]) -> String {
    harness::parse_args(args(list)).unwrap_err()
}

fn e2e_complaint(list: &[&str]) -> String {
    e2e::parse_args(args(list)).unwrap_err()
}

#[test]
fn harness_complaints() {
    for (list, text) in [
        (&[][..], "usage: fungi-harness listen|dial ..."),
        (&["p"], "usage: fungi-harness listen|dial ..."),
        (&["p", "listen"], "--plugin is required"),
        (&["p", "listen", "--plugin"], "--plugin needs a path"),
        (&["p", "listen", "--plugin", "x"], "listen needs --virt-port"),
        (&["p", "dial", "--plugin", "x"], "dial needs a host:port target"),
        (&["p", "fly", "--plugin", "x"], "unknown subcommand fly"),
        (&["p", "fly"], "--plugin is required"),
        (&["p", "listen", "--private-net"], "--private-net needs a file"),
        (&["p", "listen", "--state-dir"], "--state-dir needs a path"),
        (&["p", "listen", "--virt-port"], "--virt-port needs a number"),
        (
            &["p", "listen", "--virt-port", ""],
            "cannot parse integer from empty string",
        ),
        (
            &["p", "listen", "--virt-port", "x"],
            "invalid digit found in string",
        ),
        (
            &["p", "listen", "--virt-port", "65536"],
            "number too large to fit in target type",
        ),
        (&["p", "dial", "peer"], "target must be host:port"),
        (&["p", "dial", "peer:x"], "invalid digit found in string"),
        (&["p", "dial", "a:1", "b:2"], "unknown argument b:2"),
        (&["p", "dial", "--what"], "unknown argument --what"),
        (&["p", "dial", "--backend", "arti"], "unknown argument --backend"),
    ] {
        assert_eq!(harness_complaint(list), text, "{list:?}");
    }
}

#[test]
fn e2e_complaints() {
    for (list, text) in [
        (&["p"][..], "usage: fungi-e2e listen|dial ..."),
        (&["p", "listen"], "--backend is required"),
        (&["p", "listen", "--backend"], "--backend socks5h|arti, got None"),
        (
            &["p", "listen", "--backend", "tor"],
            "--backend socks5h|arti, got Some(\"tor\")",
        ),
        (
            &["p", "listen", "--backend", "a\"\n"],
            "--backend socks5h|arti, got Some(\"a\\\"\\n\")",
        ),
        (&["p", "dial", "--plugin", "x"], "unknown argument --plugin"),
        (
            &["p", "listen", "--backend", "arti"],
            "listen needs --virt-port",
        ),
    ] {
        assert_eq!(e2e_complaint(list), text, "{list:?}");
    }
}

#[test]
fn backend_complaint_quotes_what_was_given() {
    assert_eq!(backend_complaint(None), "--backend socks5h|arti, got None");
    assert_eq!(
        backend_complaint(Some(String::from("<x>"))),
        "--backend socks5h|arti, got Some(<x>)"
    );
}

#[test]
fn later_values_replace_earlier_ones() {
    let cli = harness::parse_args(args(&[
        "p", "listen", "--virt-port", "1", "--plugin", "a", "--plugin", "--virt-port",
        "--virt-port", "+2", "ignored.onion:3",
    ]))
    .unwrap();
    assert_eq!(cli.plugin, "--virt-port");
    assert_eq!(cli.cmd, Cmd::Listen { virt_port: 2 });
    assert_eq!(cli.private_net, None);
    assert_eq!(cli.state_dir, None);
}

#[test]
fn target_host_may_be_empty() {
    let cli = e2e::parse_args(args(&["p", "dial", ":7", "--backend", "socks5h"])).unwrap();
    assert_eq!(cli.backend, BackendKind::Socks5h);
    assert_eq!(
        cli.cmd,
        Cmd::Dial {
            target: OnionAddr::new("", 7)
        }
    );
}

#[test]
fn e2e_flags_are_taken() {
    let cli = e2e::parse_args(args(&[
        "p", "listen", "--backend", "arti", "--virt-port", "9735", "--private-net", "net",
        "--state-dir", "dir",
    ]))
    .unwrap();
    assert_eq!(cli.backend, BackendKind::Arti);
    assert_eq!(cli.private_net.as_deref(), Some("net"));
    assert_eq!(cli.state_dir.as_deref(), Some("dir"));
}

#[test]
fn state_dir_defaults_under_the_temporary_one() {
    let cli = |extra: &[&str]| {
        let mut list = vec!["p", "listen", "--backend", "arti", "--virt-port", "1"];
        list.extend_from_slice(extra);
        e2e::parse_args(args(&list)).unwrap()
    };
    assert_eq!(
        e2e::state_dir(&cli(&[]), "/tmp"),
        FilePath::Under {
            dir: String::from("/tmp"),
            leaf: String::from("fungi-e2e")
        }
    );
    assert_eq!(
        e2e::state_dir(&cli(&["--state-dir", "dir"]), "/tmp"),
        FilePath::Whole(String::from("dir"))
    );
}

#[test]
fn plugin_environment_follows_the_flags() {
    let cli = |extra: &[&str]| {
        let mut list = vec!["p", "listen", "--plugin", "x", "--virt-port", "1"];
        list.extend_from_slice(extra);
        harness::parse_args(args(&list)).unwrap()
    };
    assert!(plugin_env(&cli(&[])).is_empty());
    let vars = plugin_env(&cli(&["--private-net", "net", "--state-dir", "dir"]));
    let names: Vec<&str> = vars.iter().map(|var| var.name.as_str()).collect();
    assert_eq!(
        names,
        ["FUNGI_STATE_DIR", "FUNGI_CACHE_DIR", "FUNGI_PRIVATE_NET"]
    );
    let under = |leaf: &str| FilePath::Under {
        dir: String::from("dir"),
        leaf: String::from(leaf),
    };
    assert_eq!(vars[0].path, under("state"));
    assert_eq!(vars[1].path, under("cache"));
    assert_eq!(vars[2].path, FilePath::Whole(String::from("net")));
}

#[test]
fn setup_reads_the_private_net_first() {
    let cli = |extra: &[&str]| {
        let mut list = vec!["p", "listen", "--backend", "arti", "--virt-port", "1"];
        list.extend_from_slice(extra);
        e2e::parse_args(args(&list)).unwrap()
    };
    let dirs = |base: FilePath| {
        let entry = |leaf: &str| e2e::DirPath {
            dir: base.clone(),
            leaf: String::from(leaf),
        };
        (entry("state"), entry("cache"))
    };
    let own = || FilePath::Under {
        dir: String::from("/tmp"),
        leaf: String::from("fungi-e2e"),
    };
    let bootstrap = |base: FilePath| {
        let (state, cache) = dirs(base);
        e2e::Setup::Bootstrap {
            state,
            cache,
            max_msg_len: DEFAULT_MAX_MSG_LEN,
            timeout_secs: 300,
        }
    };
    assert_eq!(e2e::client_dirs(&cli(&[]), "/tmp"), dirs(own()));
    assert_eq!(e2e::start_setup(&cli(&[]), "/tmp"), bootstrap(own()));
    // With a private-net file the client gets the very same directories.
    for (extra, base) in [
        (&["--private-net", "net"][..], own()),
        (
            &["--private-net", "net", "--state-dir", "dir"],
            FilePath::Whole(String::from("dir")),
        ),
    ] {
        let cli = cli(extra);
        let (state, cache) = dirs(base.clone());
        assert_eq!(
            e2e::start_setup(&cli, "/tmp"),
            e2e::Setup::ReadPrivateNet {
                path: String::from("net"),
                state,
                cache
            }
        );
        assert_eq!(
            e2e::on_configured(&cli, "/tmp", Ok(())),
            Ok(bootstrap(base))
        );
        assert_eq!(
            e2e::on_configured(&cli, "/tmp", Err(String::from("bad"))),
            Err(String::from("bad"))
        );
    }
    assert_eq!(
        e2e::on_private_net_read(Err(String::from("gone"))),
        Err(String::from("gone"))
    );
    assert_eq!(
        e2e::on_private_net_read(Ok(String::new())),
        Err(String::from("no authorities in private-net file"))
    );
    assert!(e2e::on_private_net_read(Ok(String::from("authority a 0f\nfallback a b c"))).is_ok());
}

#[test]
fn bootstrap_that_takes_too_long_is_reported() {
    assert_eq!(e2e::on_bootstrapped(Outcome::Done(String::new())), Ok(()));
    assert_eq!(
        e2e::on_bootstrapped(Outcome::Failed(String::from("no net"))),
        Err(String::from("no net"))
    );
    assert_eq!(
        e2e::on_bootstrapped(Outcome::TimedOut),
        Err(String::from("bootstrap timed out"))
    );
}
