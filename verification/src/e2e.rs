//! The end-to-end program: drives one of the backends that are linked into it.

use crate::cli::{
    BackendKind, Cmd, Command, FilePath, PathText, Program, backend_comes_from_its_flag,
    backend_of, choose_command, command_of, flags_set_their_own_field, nothing_given, scan_flags,
    scan_of, scanned,
};
use crate::driver::{Ended, Outcome, STEP_TIMEOUT_SECS};
use crate::framed::DEFAULT_MAX_MSG_LEN;
use crate::net::{Net, PrivateNet, lines, net_of};
use crate::text::{agrees, text_of, texts, u16_of};
use vstd::prelude::*;

verus! {

/// Parsed command line.
#[derive(Debug, Clone, PartialEq, Eq)]
pub struct Cli {
    pub cmd: Cmd,
    pub backend: BackendKind,
    pub private_net: Option<String>,
    /// See [`state_dir`] for where none is given.
    pub state_dir: Option<String>,
}

/// The mathematical content of a [`Cli`].
#[verifier::ext_equal]
pub struct Parsed {
    pub cmd: Command,
    pub backend: BackendKind,
    pub private_net: Option<Seq<char>>,
    pub state_dir: Option<Seq<char>>,
}

impl View for Cli {
    type V = Parsed;

    open spec fn view(&self) -> Parsed {
        Parsed {
            cmd: self.cmd@,
            backend: self.backend,
            private_net: text_of(self.private_net),
            state_dir: text_of(self.state_dir),
        }
    }
}

/// What arguments, the first of which is the program's name, tell the program, or
/// the complaint about them. A fault in the flags is complained about before a
/// missing backend, and that before the subcommand.
pub open spec fn cli_of(args: Seq<Seq<char>>) -> Result<Parsed, Seq<char>> {
    if args.len() < 2 {
        Err("usage: fungi-e2e listen|dial ..."@)
    } else {
        match scanned(Program::E2e, args, 2, nothing_given()) {
            Err(complaint) => Err(complaint),
            Ok(given) => match given.backend {
                None => Err("--backend is required"@),
                Some(backend) => match command_of(
                    args[1],
                    given.virt_port,
                    given.target,
                ) {
                    Err(complaint) => Err(complaint),
                    Ok(cmd) => Ok(
                        Parsed {
                            cmd,
                            backend,
                            private_net: given.private_net,
                            state_dir: given.state_dir,
                        },
                    ),
                },
            },
        }
    }
}

/// Reads the command line, the first of which is the program's name.
pub fn parse_args(args: Vec<String>) -> (cli: Result<Cli, String>)
    ensures
        agrees(cli, cli_of(texts(args@))),
{
    if args.len() < 2 {
        return Err("usage: fungi-e2e listen|dial ...".to_owned());
    }
    match scan_flags(Program::E2e, &args) {
        Err(complaint) => Err(complaint),
        Ok(flags) => match flags.backend {
            None => Err("--backend is required".to_owned()),
            Some(backend) => match choose_command(
                args[1].as_str(),
                flags.virt_port,
                flags.target,
            ) {
                Err(complaint) => Err(complaint),
                Ok(cmd) => Ok(
                    Cli {
                        cmd,
                        backend,
                        private_net: flags.private_net,
                        state_dir: flags.state_dir,
                    },
                ),
            },
        },
    }
}

/// Where the program keeps its state, given the system's directory for temporary
/// files: in the directory that was given, else in one of its own there.
pub open spec fn state_dir_of(cli: Parsed, temp_dir: Seq<char>) -> PathText {
    match cli.state_dir {
        Some(dir) => PathText::Whole(dir),
        None => PathText::Under { dir: temp_dir, leaf: "fungi-e2e"@ },
    }
}

/// Where the program keeps its state, given the system's directory for temporary
/// files.
pub fn state_dir(cli: &Cli, temp_dir: &str) -> (dir: FilePath)
    ensures
        dir@ == state_dir_of(cli@, temp_dir@),
{
    match &cli.state_dir {
        Some(dir) => FilePath::Whole(dir.clone()),
        None => FilePath::Under { dir: temp_dir.to_owned(), leaf: "fungi-e2e".to_owned() },
    }
}

/// The entry `leaf` of a directory.
#[derive(Debug, Clone, PartialEq, Eq)]
pub struct DirPath {
    pub dir: FilePath,
    pub leaf: String,
}

/// The mathematical content of a [`DirPath`].
#[verifier::ext_equal]
pub struct DirText {
    pub dir: PathText,
    pub leaf: Seq<char>,
}

impl View for DirPath {
    type V = DirText;

    open spec fn view(&self) -> DirText {
        DirText { dir: self.dir@, leaf: self.leaf@ }
    }
}

/// Where the client keeps its persistent state: in the entry `state` of the
/// directory in which the program keeps its own.
pub open spec fn client_state_dir(cli: Parsed, temp_dir: Seq<char>) -> DirText {
    DirText { dir: state_dir_of(cli, temp_dir), leaf: "state"@ }
}

/// Where the client keeps its network-directory cache: in the entry `cache` of the
/// same directory.
pub open spec fn client_cache_dir(cli: Parsed, temp_dir: Seq<char>) -> DirText {
    DirText { dir: state_dir_of(cli, temp_dir), leaf: "cache"@ }
}

/// Where the client keeps its persistent state, and where its network-directory
/// cache.
pub fn client_dirs(cli: &Cli, temp_dir: &str) -> (dirs: (DirPath, DirPath))
    ensures
        dirs.0@ == client_state_dir(cli@, temp_dir@),
        dirs.1@ == client_cache_dir(cli@, temp_dir@),
{
    (
        DirPath { dir: state_dir(cli, temp_dir), leaf: "state".to_owned() },
        DirPath { dir: state_dir(cli, temp_dir), leaf: "cache".to_owned() },
    )
}

/// How the in-process Tor client is set up.
#[derive(Debug, Clone, PartialEq, Eq)]
pub enum Setup {
    /// Read this private-net file and apply it to the configuration of a client
    /// with these directories.
    ReadPrivateNet { path: String, state: DirPath, cache: DirPath },
    /// Bootstrap a client with these directories onto the network that is
    /// configured.
    Bootstrap { state: DirPath, cache: DirPath, max_msg_len: usize, timeout_secs: u64 },
}

/// The mathematical content of a [`Setup`].
#[verifier::ext_equal]
pub enum Stage {
    ReadPrivateNet { path: Seq<char>, state: DirText, cache: DirText },
    Bootstrap { state: DirText, cache: DirText, max_msg_len: nat, timeout_secs: nat },
}

impl View for Setup {
    type V = Stage;

    open spec fn view(&self) -> Stage {
        match self {
            Setup::ReadPrivateNet { path, state, cache } => Stage::ReadPrivateNet {
                path: path@,
                state: state@,
                cache: cache@,
            },
            Setup::Bootstrap { state, cache, max_msg_len, timeout_secs } => Stage::Bootstrap {
                state: state@,
                cache: cache@,
                max_msg_len: *max_msg_len as nat,
                timeout_secs: *timeout_secs as nat,
            },
        }
    }
}

/// The bootstrap of the client, the same with and without a private-net file.
pub open spec fn bootstrap_of(cli: Parsed, temp_dir: Seq<char>) -> Stage {
    Stage::Bootstrap {
        state: client_state_dir(cli, temp_dir),
        cache: client_cache_dir(cli, temp_dir),
        max_msg_len: DEFAULT_MAX_MSG_LEN as nat,
        timeout_secs: STEP_TIMEOUT_SECS as nat,
    }
}

/// How setting up the client starts: with the private-net file where one was
/// given, else with the bootstrap.
pub open spec fn setup_of(cli: Parsed, temp_dir: Seq<char>) -> Stage {
    match cli.private_net {
        Some(path) => Stage::ReadPrivateNet {
            path,
            state: client_state_dir(cli, temp_dir),
            cache: client_cache_dir(cli, temp_dir),
        },
        None => bootstrap_of(cli, temp_dir),
    }
}

/// The bootstrap of the client.
fn bootstrap(cli: &Cli, temp_dir: &str) -> (setup: Setup)
    ensures
        setup@ == bootstrap_of(cli@, temp_dir@),
{
    let (state, cache) = client_dirs(cli, temp_dir);
    Setup::Bootstrap {
        state,
        cache,
        max_msg_len: DEFAULT_MAX_MSG_LEN,
        timeout_secs: STEP_TIMEOUT_SECS,
    }
}

/// How setting up the client starts.
pub fn start_setup(cli: &Cli, temp_dir: &str) -> (setup: Setup)
    ensures
        setup@ == setup_of(cli@, temp_dir@),
        match cli.private_net {
            Some(file) => setup matches Setup::ReadPrivateNet { path, .. } && path@ == file@,
            None => setup is Bootstrap,
        },
{
    match &cli.private_net {
        Some(file) => {
            let (state, cache) = client_dirs(cli, temp_dir);
            Setup::ReadPrivateNet { path: file.clone(), state, cache }
        },
        None => bootstrap(cli, temp_dir),
    }
}

/// The private network in a file that was read, or could not be.
pub open spec fn net_read(read: Result<Seq<char>, Seq<char>>) -> Result<Net, Seq<char>> {
    match read {
        Err(reason) => Err(reason),
        Ok(text) => net_of(lines(text)),
    }
}

/// The private network in a file that was read, or could not be.
pub fn on_private_net_read(read: Result<String, String>) -> (net: Result<PrivateNet, String>)
    ensures
        agrees(
            net,
            net_read(
                match read {
                    Ok(text) => Ok(text@),
                    Err(reason) => Err(reason@),
                },
            ),
        ),
{
    match read {
        Err(reason) => Err(reason),
        Ok(text) => PrivateNet::parse(text.as_str()),
    }
}

/// How the setup goes on once the private network is configured, or could not be:
/// with the bootstrap.
pub fn on_configured(cli: &Cli, temp_dir: &str, built: Result<(), String>) -> (setup: Result<
    Setup,
    String,
>)
    ensures
        agrees(
            setup,
            match built {
                Ok(()) => Ok(bootstrap_of(cli@, temp_dir@)),
                Err(reason) => Err(reason@),
            },
        ),
{
    match built {
        Ok(()) => Ok(bootstrap(cli, temp_dir)),
        Err(reason) => Err(reason),
    }
}

/// How the setup ended.
pub fn on_bootstrapped(outcome: Outcome) -> (result: Result<(), String>)
    ensures
        match outcome@ {
            Ended::Done(_) => result is Ok,
            Ended::Failed(reason) => result matches Err(text) && text@ == reason,
            Ended::TimedOut => result matches Err(text) && text@
                == "bootstrap timed out"@,
        },
{
    match outcome {
        Outcome::Done(_) => Ok(()),
        Outcome::Failed(reason) => Err(reason),
        Outcome::TimedOut => Err("bootstrap timed out".to_owned()),
    }
}

/// Every way through the setup has the client keep its files in the same two
/// directories, the entries `state` and `cache` of one directory: where a
/// private-net file is read, it is configured with the very directories that it is
/// bootstrapped with then.
pub proof fn both_routes_use_the_same_directories(cli: Parsed, temp_dir: Seq<char>)
    ensures
        bootstrap_of(cli, temp_dir) matches Stage::Bootstrap { state, cache, .. } && {
            &&& state == (DirText { dir: state_dir_of(cli, temp_dir), leaf: "state"@ })
            &&& cache == (DirText { dir: state_dir_of(cli, temp_dir), leaf: "cache"@ })
            &&& match setup_of(cli, temp_dir) {
                Stage::ReadPrivateNet { state: first_state, cache: first_cache, .. } => first_state
                    == state && first_cache == cache,
                Stage::Bootstrap { .. } => setup_of(cli, temp_dir) == bootstrap_of(cli, temp_dir),
            }
        },
{
}

/// The backend is required: no command line is accepted that names none.
pub proof fn backend_is_required(args: Seq<Seq<char>>)
    requires
        cli_of(args) is Ok,
    ensures
        exists|at: int|
            2 <= at && at + 1 < args.len() && #[trigger] args[at] == "--backend"@
                && backend_of(args[at + 1]) == Some((cli_of(args)->Ok_0).backend),
{
    backend_comes_from_its_flag(args, 2, nothing_given());
}

/// A command line is accepted exactly if its arguments are, a backend is among them and the
/// subcommand has what it needs; and it is taken as it was given, nothing added, left
/// out or mixed up.
pub proof fn command_line_is_taken_as_given(args: Seq<Seq<char>>, cli: Parsed)
    ensures
        cli_of(args) == Ok::<Parsed, Seq<char>>(cli) <==> {
            &&& args.len() >= 2
            &&& scan_of(Program::E2e, args) matches Ok(given)
            &&& given.backend == Some(cli.backend)
            &&& given.private_net == cli.private_net
            &&& given.state_dir == cli.state_dir
            &&& {
                ||| args[1] == "listen"@ && given.virt_port is Some && cli.cmd == (
                Command::Listen { virt_port: given.virt_port->0 })
                ||| args[1] == "dial"@ && given.target is Some && cli.cmd == (Command::Dial {
                    target: given.target->0,
                })
            }
        },
{
    reveal_strlit("listen");
    reveal_strlit("dial");
    assert("listen"@.len() != "dial"@.len());
}

/// What is wrong with a command line is found in order: that it has no subcommand, a
/// fault among its arguments, that it has no backend, and then what the subcommand lacks.
pub proof fn faults_are_found_in_order(args: Seq<Seq<char>>)
    ensures
        args.len() < 2 ==> cli_of(args) == Err::<Parsed, Seq<char>>("usage: fungi-e2e listen|dial ..."@),
        args.len() >= 2 ==> match scan_of(Program::E2e, args) {
            Err(words) => cli_of(args) == Err::<Parsed, Seq<char>>(words),
            Ok(given) => {
                &&& given.backend is None ==> cli_of(args) == Err::<Parsed, Seq<char>>(
                    "--backend is required"@,
                )
                &&& given.backend is Some && args[1] == "listen"@ && given.virt_port is None ==>
                    cli_of(args) == Err::<Parsed, Seq<char>>("listen needs --virt-port"@)
                &&& given.backend is Some && args[1] == "dial"@ && given.target is None ==> cli_of(
                    args,
                ) == Err::<Parsed, Seq<char>>("dial needs a host:port target"@)
                &&& given.backend is Some && args[1] != "listen"@ && args[1] != "dial"@ ==> cli_of(
                    args,
                ) == Err::<Parsed, Seq<char>>("unknown subcommand "@ + args[1])
            },
        },
{
    reveal_strlit("listen");
    reveal_strlit("dial");
    assert("listen"@.len() != "dial"@.len());
}

/// Each flag at the end of a command line that is accepted changes what it is for, and
/// nothing else.
pub proof fn one_more_flag_changes_one_thing(args: Seq<Seq<char>>, value: Seq<char>)
    requires
        cli_of(args) is Ok,
    ensures
        ({
            let had = cli_of(args)->Ok_0;
            &&& cli_of(args + seq!["--private-net"@, value]) == Ok::<Parsed, Seq<char>>(
                Parsed { private_net: Some(value), ..had },
            )
            &&& cli_of(args + seq!["--state-dir"@, value]) == Ok::<Parsed, Seq<char>>(
                Parsed { state_dir: Some(value), ..had },
            )
            &&& value == "socks5h"@ ==> cli_of(args + seq!["--backend"@, value]) == Ok::<
                Parsed,
                Seq<char>,
            >(Parsed { backend: BackendKind::Socks5h, ..had })
            &&& value == "arti"@ ==> cli_of(args + seq!["--backend"@, value]) == Ok::<
                Parsed,
                Seq<char>,
            >(Parsed { backend: BackendKind::Arti, ..had })
            &&& args[1] == "listen"@ && u16_of(value) is Ok ==> cli_of(
                args + seq!["--virt-port"@, value],
            ) == Ok::<Parsed, Seq<char>>(
                Parsed { cmd: Command::Listen { virt_port: u16_of(value)->Ok_0 }, ..had },
            )
            &&& args[1] == "dial"@ && u16_of(value) is Ok ==> cli_of(
                args + seq!["--virt-port"@, value],
            ) == Ok::<Parsed, Seq<char>>(had)
        }),
{
    reveal_strlit("listen");
    reveal_strlit("dial");
    assert("listen"@.len() != "dial"@.len());
    flags_set_their_own_field(Program::E2e, args, value);
    assert((args + seq!["--private-net"@, value])[1] == args[1]);
    assert((args + seq!["--state-dir"@, value])[1] == args[1]);
    assert((args + seq!["--backend"@, value])[1] == args[1]);
    assert((args + seq!["--virt-port"@, value])[1] == args[1]);
}

/// Whatever the command and the backend, the setup reads a private-net file exactly
/// where one was given, and then that very file; else it bootstraps at once.
pub proof fn private_net_is_read_where_given(cli: Parsed, temp_dir: Seq<char>, file: Seq<char>)
    ensures
        cli.private_net == Some(file) <==> (setup_of(cli, temp_dir) matches Stage::ReadPrivateNet {
            path,
            ..
        } && path == file),
        cli.private_net is None <==> setup_of(cli, temp_dir) is Bootstrap,
{
}

/// How the client is set up depends on the private-net file and the state directory
/// alone: two command lines that agree on these agree on the setup.
pub proof fn setup_depends_on_two_flags(a: Parsed, b: Parsed, temp_dir: Seq<char>)
    requires
        a.private_net == b.private_net,
        a.state_dir == b.state_dir,
    ensures
        setup_of(a, temp_dir) == setup_of(b, temp_dir),
        bootstrap_of(a, temp_dir) == bootstrap_of(b, temp_dir),
{
}

/// A state directory that was given is used as it is, and the system's directory for
/// temporary files does not matter then; without one, the program has its own there.
/// Messages may hold 1 MiB, and the bootstrap may take five minutes.
pub proof fn bootstrap_is_where_and_as_asked(cli: Parsed, temp_dir: Seq<char>)
    ensures
        cli.state_dir matches Some(dir) ==> state_dir_of(cli, temp_dir) == PathText::Whole(dir),
        cli.state_dir is None ==> state_dir_of(cli, temp_dir) == (PathText::Under {
            dir: temp_dir,
            leaf: "fungi-e2e"@,
        }),
        bootstrap_of(cli, temp_dir) == (Stage::Bootstrap {
            state: DirText { dir: state_dir_of(cli, temp_dir), leaf: "state"@ },
            cache: DirText { dir: state_dir_of(cli, temp_dir), leaf: "cache"@ },
            max_msg_len: 1024 * 1024,
            timeout_secs: 300,
        }),
{
}

/// A file that could not be read is complained of in the words for that; the text of
/// one that was read is taken line by line, whole.
pub proof fn file_is_read_whole(text: Seq<char>, reason: Seq<char>)
    ensures
        net_read(Ok(text)) == net_of(lines(text)),
        net_read(Err(reason)) == Err::<Net, Seq<char>>(reason),
{
}

/// The command line and the setup say the same as their contents.
pub proof fn program_hides_nothing(cli: Cli, setup: Setup, path: DirPath)
    ensures
        cli@.cmd == cli.cmd@,
        cli@.backend == cli.backend,
        cli@.private_net == text_of(cli.private_net),
        cli@.state_dir == text_of(cli.state_dir),
        path@.dir == path.dir@,
        path@.leaf == path.leaf@,
        setup matches Setup::ReadPrivateNet { path, state, cache } ==> setup@ == (
        Stage::ReadPrivateNet { path: path@, state: state@, cache: cache@ }),
        setup matches Setup::Bootstrap { state, cache, max_msg_len, timeout_secs } ==> setup@ == (
        Stage::Bootstrap {
            state: state@,
            cache: cache@,
            max_msg_len: max_msg_len as nat,
            timeout_secs: timeout_secs as nat,
        }),
{
}

} // verus!
