//! The harness program: drives a backend plugin, which runs as a subprocess. It
//! is backend-agnostic: every backend is reached the same way, through its plugin
//! binary.

use crate::cli::{
    Cmd, Command, FilePath, PathText, Program, choose_command, command_of,
    flags_set_their_own_field, nothing_given, scan_flags, scan_of, scanned, stands_at,
    values_come_from_their_flags,
};
use crate::text::{agrees, text_of, texts, u16_of};
use vstd::prelude::*;

verus! {

/// Parsed command line.
#[derive(Debug, Clone, PartialEq, Eq)]
pub struct Cli {
    pub cmd: Cmd,
    pub private_net: Option<String>,
    pub state_dir: Option<String>,
    /// The plugin binary to drive. Every backend is reached this way, so this is
    /// required.
    pub plugin: String,
}

/// The mathematical content of a [`Cli`].
#[verifier::ext_equal]
pub struct Parsed {
    pub cmd: Command,
    pub private_net: Option<Seq<char>>,
    pub state_dir: Option<Seq<char>>,
    pub plugin: Seq<char>,
}

impl View for Cli {
    type V = Parsed;

    open spec fn view(&self) -> Parsed {
        Parsed {
            cmd: self.cmd@,
            private_net: text_of(self.private_net),
            state_dir: text_of(self.state_dir),
            plugin: self.plugin@,
        }
    }
}

/// What arguments, the first of which is the program's name, tell the harness, or
/// the complaint about them. A fault in the flags is complained about before a
/// missing plugin, and that before the subcommand.
pub open spec fn cli_of(args: Seq<Seq<char>>) -> Result<Parsed, Seq<char>> {
    if args.len() < 2 {
        Err("usage: fungi-harness listen|dial ..."@)
    } else {
        match scanned(Program::Harness, args, 2, nothing_given()) {
            Err(complaint) => Err(complaint),
            Ok(given) => match given.plugin {
                None => Err("--plugin is required"@),
                Some(plugin) => match command_of(
                    args[1],
                    given.virt_port,
                    given.target,
                ) {
                    Err(complaint) => Err(complaint),
                    Ok(cmd) => Ok(
                        Parsed {
                            cmd,
                            private_net: given.private_net,
                            state_dir: given.state_dir,
                            plugin,
                        },
                    ),
                },
            },
        }
    }
}

/// Reads the command line, the first of which is the program's name.
pub fn parse_args(args: Vec<String>) -> (cli: Result<Cli, String>)
    ensures
        agrees(cli, cli_of(texts(args@))),
{
    if args.len() < 2 {
        return Err("usage: fungi-harness listen|dial ...".to_owned());
    }
    match scan_flags(Program::Harness, &args) {
        Err(complaint) => Err(complaint),
        Ok(flags) => match flags.plugin {
            None => Err("--plugin is required".to_owned()),
            Some(plugin) => match choose_command(args[1].as_str(), flags.virt_port, flags.target) {
                Err(complaint) => Err(complaint),
                Ok(cmd) => Ok(
                    Cli {
                        cmd,
                        private_net: flags.private_net,
                        state_dir: flags.state_dir,
                        plugin,
                    },
                ),
            },
        },
    }
}

/// An environment variable of a plugin.
#[derive(Debug, Clone, PartialEq, Eq)]
pub struct EnvVar {
    pub name: String,
    pub path: FilePath,
}

/// The names and the paths of environment variables.
pub open spec fn settings(vars: Seq<EnvVar>) -> Seq<(Seq<char>, PathText)> {
    Seq::new(vars.len(), |i: int| (vars[i].name@, vars[i].path@))
}

/// The environment that a plugin gets: the state and the cache directory where a
/// state directory was given, and the private-net file where one was.
pub open spec fn env_of(cli: Parsed) -> Seq<(Seq<char>, PathText)> {
    let dirs = match cli.state_dir {
        Some(dir) => seq![
            ("FUNGI_STATE_DIR"@, PathText::Under { dir, leaf: "state"@ }),
            ("FUNGI_CACHE_DIR"@, PathText::Under { dir, leaf: "cache"@ }),
        ],
        None => Seq::empty(),
    };
    let net = match cli.private_net {
        Some(file) => seq![("FUNGI_PRIVATE_NET"@, PathText::Whole(file))],
        None => Seq::empty(),
    };
    dirs + net
}

/// The environment that a plugin gets. Each backend reads only what it needs and
/// ignores the rest.
pub fn plugin_env(cli: &Cli) -> (vars: Vec<EnvVar>)
    ensures
        settings(vars@) == env_of(cli@),
{
    let mut vars: Vec<EnvVar> = Vec::new();
    match &cli.state_dir {
        Some(dir) => {
            vars.push(
                EnvVar {
                    name: "FUNGI_STATE_DIR".to_owned(),
                    path: FilePath::Under { dir: dir.clone(), leaf: "state".to_owned() },
                },
            );
            vars.push(
                EnvVar {
                    name: "FUNGI_CACHE_DIR".to_owned(),
                    path: FilePath::Under { dir: dir.clone(), leaf: "cache".to_owned() },
                },
            );
        },
        None => {},
    }
    match &cli.private_net {
        Some(file) => {
            vars.push(
                EnvVar {
                    name: "FUNGI_PRIVATE_NET".to_owned(),
                    path: FilePath::Whole(file.clone()),
                },
            );
        },
        None => {},
    }
    assert(settings(vars@) =~= env_of(cli@));
    vars
}

/// The plugin is required, and it is what stands behind a `--plugin` flag.
pub proof fn plugin_is_required(args: Seq<Seq<char>>)
    requires
        cli_of(args) is Ok,
    ensures
        exists|at: int| stands_at(args, at, "--plugin"@, (cli_of(args)->Ok_0).plugin),
{
    values_come_from_their_flags(Program::Harness, args, 2, nothing_given());
    let found = scanned(Program::Harness, args, 2, nothing_given())->Ok_0;
    assert(found.plugin == Some((cli_of(args)->Ok_0).plugin));
}

/// A command line is accepted exactly if its arguments are, a plugin is among them and the
/// subcommand has what it needs; and it is taken as it was given, nothing added, left
/// out or mixed up.
pub proof fn command_line_is_taken_as_given(args: Seq<Seq<char>>, cli: Parsed)
    ensures
        cli_of(args) == Ok::<Parsed, Seq<char>>(cli) <==> {
            &&& args.len() >= 2
            &&& scan_of(Program::Harness, args) matches Ok(given)
            &&& given.plugin == Some(cli.plugin)
            &&& given.private_net == cli.private_net
            &&& given.state_dir == cli.state_dir
            &&& {
                ||| args[1] == "listen"@ && given.virt_port is Some && cli.cmd == (
                Command::Listen { virt_port: given.virt_port->0 })
                ||| args[1] == "dial"@ && given.target is Some && cli.cmd == (Command::Dial {
                    target: given.target->0,
                })
            }
        },
{
    reveal_strlit("listen");
    reveal_strlit("dial");
    assert("listen"@.len() != "dial"@.len());
}

/// What is wrong with a command line is found in order: that it has no subcommand, a
/// fault among its arguments, that it has no plugin, and then what the subcommand lacks.
pub proof fn faults_are_found_in_order(args: Seq<Seq<char>>)
    ensures
        args.len() < 2 ==> cli_of(args) == Err::<Parsed, Seq<char>>("usage: fungi-harness listen|dial ..."@),
        args.len() >= 2 ==> match scan_of(Program::Harness, args) {
            Err(words) => cli_of(args) == Err::<Parsed, Seq<char>>(words),
            Ok(given) => {
                &&& given.plugin is None ==> cli_of(args) == Err::<Parsed, Seq<char>>(
                    "--plugin is required"@,
                )
                &&& given.plugin is Some && args[1] == "listen"@ && given.virt_port is None ==>
                    cli_of(args) == Err::<Parsed, Seq<char>>("listen needs --virt-port"@)
                &&& given.plugin is Some && args[1] == "dial"@ && given.target is None ==> cli_of(
                    args,
                ) == Err::<Parsed, Seq<char>>("dial needs a host:port target"@)
                &&& given.plugin is Some && args[1] != "listen"@ && args[1] != "dial"@ ==> cli_of(
                    args,
                ) == Err::<Parsed, Seq<char>>("unknown subcommand "@ + args[1])
            },
        },
{
    reveal_strlit("listen");
    reveal_strlit("dial");
    assert("listen"@.len() != "dial"@.len());
}

/// Each flag at the end of a command line that is accepted changes what it is for, and
/// nothing else.
pub proof fn one_more_flag_changes_one_thing(args: Seq<Seq<char>>, value: Seq<char>)
    requires
        cli_of(args) is Ok,
    ensures
        ({
            let had = cli_of(args)->Ok_0;
            &&& cli_of(args + seq!["--private-net"@, value]) == Ok::<Parsed, Seq<char>>(
                Parsed { private_net: Some(value), ..had },
            )
            &&& cli_of(args + seq!["--state-dir"@, value]) == Ok::<Parsed, Seq<char>>(
                Parsed { state_dir: Some(value), ..had },
            )
            &&& cli_of(args + seq!["--plugin"@, value]) == Ok::<Parsed, Seq<char>>(
                Parsed { plugin: value, ..had },
            )
            &&& args[1] == "listen"@ && u16_of(value) is Ok ==> cli_of(
                args + seq!["--virt-port"@, value],
            ) == Ok::<Parsed, Seq<char>>(
                Parsed { cmd: Command::Listen { virt_port: u16_of(value)->Ok_0 }, ..had },
            )
            &&& args[1] == "dial"@ && u16_of(value) is Ok ==> cli_of(
                args + seq!["--virt-port"@, value],
            ) == Ok::<Parsed, Seq<char>>(had)
        }),
{
    reveal_strlit("listen");
    reveal_strlit("dial");
    assert("listen"@.len() != "dial"@.len());
    flags_set_their_own_field(Program::Harness, args, value);
    assert((args + seq!["--private-net"@, value])[1] == args[1]);
    assert((args + seq!["--state-dir"@, value])[1] == args[1]);
    assert((args + seq!["--plugin"@, value])[1] == args[1]);
    assert((args + seq!["--virt-port"@, value])[1] == args[1]);
}

/// The flags reach the plugin independently of each other. The private-net file is in
/// its environment exactly where one was given, with that path, and the state and the
/// cache directory exactly where a state directory was given, as its entries `state`
/// and `cache`; there is nothing else in it, and nothing twice.
pub proof fn each_flag_reaches_the_plugin(cli: Parsed, path: PathText)
    ensures
        env_of(cli).contains(("FUNGI_PRIVATE_NET"@, path)) <==> (cli.private_net matches Some(file)
            && path == PathText::Whole(file)),
        env_of(cli).contains(("FUNGI_STATE_DIR"@, path)) <==> (cli.state_dir matches Some(dir)
            && path == (PathText::Under { dir, leaf: "state"@ })),
        env_of(cli).contains(("FUNGI_CACHE_DIR"@, path)) <==> (cli.state_dir matches Some(dir)
            && path == (PathText::Under { dir, leaf: "cache"@ })),
        forall|i: int|
            0 <= i < env_of(cli).len() ==> (#[trigger] env_of(cli)[i]).0 == "FUNGI_PRIVATE_NET"@
                || env_of(cli)[i].0 == "FUNGI_STATE_DIR"@ || env_of(cli)[i].0
                == "FUNGI_CACHE_DIR"@,
        forall|i: int, j: int|
            0 <= i < j < env_of(cli).len() ==> (#[trigger] env_of(cli)[i]).0 != (
            #[trigger] env_of(cli)[j]).0,
{
    reveal_strlit("FUNGI_PRIVATE_NET");
    reveal_strlit("FUNGI_STATE_DIR");
    reveal_strlit("FUNGI_CACHE_DIR");
    assert("FUNGI_PRIVATE_NET"@[6] == 'P');
    assert("FUNGI_STATE_DIR"@[6] == 'S');
    assert("FUNGI_CACHE_DIR"@[6] == 'C');
    let env = env_of(cli);
    if let Some(dir) = cli.state_dir {
        assert(env[0] == ("FUNGI_STATE_DIR"@, PathText::Under { dir, leaf: "state"@ }));
        assert(env[1] == ("FUNGI_CACHE_DIR"@, PathText::Under { dir, leaf: "cache"@ }));
        if let Some(file) = cli.private_net {
            assert(env[2] == ("FUNGI_PRIVATE_NET"@, PathText::Whole(file)));
        }
    } else if let Some(file) = cli.private_net {
        assert(env[0] == ("FUNGI_PRIVATE_NET"@, PathText::Whole(file)));
    }
}

/// The command line and the environment say the same as their contents.
pub proof fn harness_hides_nothing(cli: Cli, vars: Seq<EnvVar>, i: int)
    ensures
        cli@.cmd == cli.cmd@,
        cli@.private_net == text_of(cli.private_net),
        cli@.state_dir == text_of(cli.state_dir),
        cli@.plugin == cli.plugin@,
        settings(vars).len() == vars.len(),
        0 <= i < vars.len() ==> settings(vars)[i] == (vars[i].name@, vars[i].path@),
{
}

} // verus!
