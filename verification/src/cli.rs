//! The command line that the listen/dial programs share.

use crate::addr::OnionAddr;
use crate::text::{
    agrees, is_flag, parse_u16, same_text, split_at_last_colon, split_joins_back, split_last_colon,
    split_of_joined, starts_as_flag, text_of, texts, u16_of,
};
use vstd::prelude::*;

verus! {

/// What a program is told to do.
#[derive(Debug, Clone, PartialEq, Eq)]
pub enum Cmd {
    Listen { virt_port: u16 },
    Dial { target: OnionAddr },
}

/// The backends that the end-to-end program can drive.
#[derive(Debug, Clone, Copy, PartialEq, Eq, Structural)]
pub enum BackendKind {
    Socks5h,
    Arti,
}

/// Which program reads the command line: they differ in one flag.
#[derive(Debug, Clone, Copy, PartialEq, Eq, Structural)]
pub enum Program {
    /// Takes `--plugin <path>`.
    Harness,
    /// Takes `--backend socks5h|arti`.
    E2e,
}

/// Where a file or a directory is.
#[derive(Debug, Clone, PartialEq, Eq)]
pub enum FilePath {
    /// A path as it was given.
    Whole(String),
    /// The entry `leaf` of the directory `dir`.
    Under { dir: String, leaf: String },
}

/// The mathematical content of a [`FilePath`].
#[verifier::ext_equal]
pub enum PathText {
    Whole(Seq<char>),
    Under { dir: Seq<char>, leaf: Seq<char> },
}

impl View for FilePath {
    type V = PathText;

    open spec fn view(&self) -> PathText {
        match self {
            FilePath::Whole(path) => PathText::Whole(path@),
            FilePath::Under { dir, leaf } => PathText::Under { dir: dir@, leaf: leaf@ },
        }
    }
}

/// What the arguments behind the subcommand gave.
#[derive(Debug, Clone, PartialEq, Eq)]
pub struct Flags {
    pub backend: Option<BackendKind>,
    pub plugin: Option<String>,
    pub private_net: Option<String>,
    pub state_dir: Option<String>,
    pub virt_port: Option<u16>,
    pub target: Option<OnionAddr>,
}

/// The mathematical content of a [`Cmd`].
#[verifier::ext_equal]
pub enum Command {
    Listen { virt_port: u16 },
    Dial { target: (Seq<char>, u16) },
}

/// The mathematical content of [`Flags`].
#[verifier::ext_equal]
pub struct Given {
    pub backend: Option<BackendKind>,
    pub plugin: Option<Seq<char>>,
    pub private_net: Option<Seq<char>>,
    pub state_dir: Option<Seq<char>>,
    pub virt_port: Option<u16>,
    pub target: Option<(Seq<char>, u16)>,
}

/// The content of an optional address.
pub open spec fn peer_of(target: Option<OnionAddr>) -> Option<(Seq<char>, u16)> {
    match target {
        Some(addr) => Some(addr@),
        None => None,
    }
}

impl View for Cmd {
    type V = Command;

    open spec fn view(&self) -> Command {
        match self {
            Cmd::Listen { virt_port } => Command::Listen { virt_port: *virt_port },
            Cmd::Dial { target } => Command::Dial { target: target@ },
        }
    }
}

impl View for Flags {
    type V = Given;

    open spec fn view(&self) -> Given {
        Given {
            backend: self.backend,
            plugin: text_of(self.plugin),
            private_net: text_of(self.private_net),
            state_dir: text_of(self.state_dir),
            virt_port: self.virt_port,
            target: peer_of(self.target),
        }
    }
}

/// Flags of which none was given.
pub open spec fn nothing_given() -> Given {
    Given {
        backend: None,
        plugin: None,
        private_net: None,
        state_dir: None,
        virt_port: None,
        target: None,
    }
}

/// A text in quotation marks, with what needs it escaped: what `Debug` of `str`
/// writes.
pub uninterp spec fn quoted(text: Seq<char>) -> Seq<char>;

/// `Debug` of `str`, which quotes the text and escapes characters in it: what it
/// writes depends on the text alone.
#[verifier::external_body]
fn quote(text: &str) -> (quotes: String)
    ensures
        quotes@ == quoted(text@),
{
    format!("{:?}", text)
}

/// The complaint about a backend that is missing, or that is none, given its name
/// in quotation marks.
pub open spec fn backend_complaint_text(in_quotes: Option<Seq<char>>) -> Seq<char> {
    match in_quotes {
        None => "--backend socks5h|arti, got None"@,
        Some(name) => "--backend socks5h|arti, got Some("@ + name + ")"@,
    }
}

/// The complaint about a backend that is missing, or that is none, given its name
/// in quotation marks.
pub fn backend_complaint(in_quotes: Option<String>) -> (text: String)
    ensures
        text@ == backend_complaint_text(text_of(in_quotes)),
{
    match in_quotes {
        None => "--backend socks5h|arti, got None".to_owned(),
        Some(name) => {
            let mut text = "--backend socks5h|arti, got Some(".to_owned();
            text.append(name.as_str());
            text.append(")");
            text
        },
    }
}

/// The backend of a given name.
pub open spec fn backend_of(name: Seq<char>) -> Option<BackendKind> {
    if name == "socks5h"@ {
        Some(BackendKind::Socks5h)
    } else if name == "arti"@ {
        Some(BackendKind::Arti)
    } else {
        None
    }
}

/// The backend of a given name.
pub fn backend_named(name: &str) -> (backend: Option<BackendKind>)
    ensures
        backend == backend_of(name@),
{
    if same_text(name, "socks5h") {
        Some(BackendKind::Socks5h)
    } else if same_text(name, "arti") {
        Some(BackendKind::Arti)
    } else {
        None
    }
}

/// The peer that a positional argument denotes: what stands before the last colon
/// is the host, whatever it is, and what stands behind it is the port.
pub open spec fn target_of(arg: Seq<char>) -> Result<(Seq<char>, u16), Seq<char>> {
    match split_at_last_colon(arg) {
        None => Err("target must be host:port"@),
        Some((host, port)) => match u16_of(port) {
            Ok(number) => Ok((host, number)),
            Err(error) => Err(error.message()),
        },
    }
}

/// The peer that a positional argument denotes.
pub fn parse_target(arg: &str) -> (target: Result<OnionAddr, String>)
    ensures
        agrees(target, target_of(arg@)),
{
    match split_last_colon(arg) {
        None => Err("target must be host:port".to_owned()),
        Some((host, port)) => match parse_u16(port) {
            Ok(number) => Ok(OnionAddr::new(host, number)),
            Err(error) => Err(error.to_string()),
        },
    }
}

/// Whether `program` knows `arg` as a flag that a value follows.
pub open spec fn takes_value(program: Program, arg: Seq<char>) -> bool {
    ||| arg == "--private-net"@
    ||| arg == "--virt-port"@
    ||| arg == "--state-dir"@
    ||| program == Program::Harness && arg == "--plugin"@
    ||| program == Program::E2e && arg == "--backend"@
}

/// What a flag with its value adds to what was given; a later value replaces an
/// earlier one.
pub open spec fn with_value(given: Given, flag: Seq<char>, value: Option<Seq<char>>) -> Result<
    Given,
    Seq<char>,
> {
    if flag == "--private-net"@ {
        match value {
            Some(file) => Ok(Given { private_net: Some(file), ..given }),
            None => Err("--private-net needs a file"@),
        }
    } else if flag == "--virt-port"@ {
        match value {
            Some(number) => match u16_of(number) {
                Ok(port) => Ok(Given { virt_port: Some(port), ..given }),
                Err(error) => Err(error.message()),
            },
            None => Err("--virt-port needs a number"@),
        }
    } else if flag == "--state-dir"@ {
        match value {
            Some(dir) => Ok(Given { state_dir: Some(dir), ..given }),
            None => Err("--state-dir needs a path"@),
        }
    } else if flag == "--plugin"@ {
        match value {
            Some(path) => Ok(Given { plugin: Some(path), ..given }),
            None => Err("--plugin needs a path"@),
        }
    } else {
        match value {
            Some(name) => match backend_of(name) {
                Some(backend) => Ok(Given { backend: Some(backend), ..given }),
                None => Err(backend_complaint_text(Some(quoted(name)))),
            },
            None => Err(backend_complaint_text(None)),
        }
    }
}

/// What an argument adds that is no flag of the program: the first that does not
/// look like a flag is the peer, anything else is unknown.
pub open spec fn with_positional(given: Given, arg: Seq<char>) -> Result<Given, Seq<char>> {
    if !is_flag(arg) && given.target is None {
        match target_of(arg) {
            Ok(target) => Ok(Given { target: Some(target), ..given }),
            Err(complaint) => Err(complaint),
        }
    } else {
        Err("unknown argument "@ + arg)
    }
}

/// What the arguments from place `i` on add to what was given, from left to
/// right; the first fault ends it.
pub open spec fn scanned(program: Program, args: Seq<Seq<char>>, i: int, given: Given) -> Result<
    Given,
    Seq<char>,
>
    decreases args.len() - i,
{
    if i >= args.len() {
        Ok(given)
    } else if takes_value(program, args[i]) {
        let value = if i + 1 < args.len() {
            Some(args[i + 1])
        } else {
            None
        };
        match with_value(given, args[i], value) {
            Ok(more) => scanned(program, args, i + 2, more),
            Err(complaint) => Err(complaint),
        }
    } else {
        match with_positional(given, args[i]) {
            Ok(more) => scanned(program, args, i + 1, more),
            Err(complaint) => Err(complaint),
        }
    }
}

/// Whether `program` knows `arg` as a flag that a value follows.
fn is_value_flag(program: Program, arg: &str) -> (known: bool)
    ensures
        known == takes_value(program, arg@),
{
    same_text(arg, "--private-net") || same_text(arg, "--virt-port") || same_text(
        arg,
        "--state-dir",
    ) || (program == Program::Harness && same_text(arg, "--plugin")) || (program == Program::E2e
        && same_text(arg, "--backend"))
}

impl Flags {
    /// Flags of which none was given.
    fn none() -> (flags: Flags)
        ensures
            flags@ == nothing_given(),
    {
        Flags {
            backend: None,
            plugin: None,
            private_net: None,
            state_dir: None,
            virt_port: None,
            target: None,
        }
    }

    /// Takes in a flag with its value.
    fn take_value(&mut self, flag: &str, value: Option<String>) -> (result: Result<(), String>)
        ensures
            match with_value(old(self)@, flag@, text_of(value)) {
                Ok(given) => result is Ok && final(self)@ == given,
                Err(words) => result matches Err(complaint) && complaint@ == words,
            },
    {
        if same_text(flag, "--private-net") {
            match value {
                Some(file) => {
                    self.private_net = Some(file);
                    Ok(())
                },
                None => Err("--private-net needs a file".to_owned()),
            }
        } else if same_text(flag, "--virt-port") {
            match value {
                Some(number) => match parse_u16(number.as_str()) {
                    Ok(port) => {
                        self.virt_port = Some(port);
                        Ok(())
                    },
                    Err(error) => Err(error.to_string()),
                },
                None => Err("--virt-port needs a number".to_owned()),
            }
        } else if same_text(flag, "--state-dir") {
            match value {
                Some(dir) => {
                    self.state_dir = Some(dir);
                    Ok(())
                },
                None => Err("--state-dir needs a path".to_owned()),
            }
        } else if same_text(flag, "--plugin") {
            match value {
                Some(path) => {
                    self.plugin = Some(path);
                    Ok(())
                },
                None => Err("--plugin needs a path".to_owned()),
            }
        } else {
            match value {
                Some(name) => match backend_named(name.as_str()) {
                    Some(backend) => {
                        self.backend = Some(backend);
                        Ok(())
                    },
                    None => Err(backend_complaint(Some(quote(name.as_str())))),
                },
                None => Err(backend_complaint(None)),
            }
        }
    }

    /// Takes in an argument that is no flag of the program.
    fn take_positional(&mut self, arg: &str) -> (result: Result<(), String>)
        ensures
            match with_positional(old(self)@, arg@) {
                Ok(given) => result is Ok && final(self)@ == given,
                Err(words) => result matches Err(complaint) && complaint@ == words,
            },
    {
        if !starts_as_flag(arg) && self.target.is_none() {
            match parse_target(arg) {
                Ok(target) => {
                    self.target = Some(target);
                    Ok(())
                },
                Err(complaint) => Err(complaint),
            }
        } else {
            let mut text = "unknown argument ".to_owned();
            text.append(arg);
            Err(text)
        }
    }
}

/// Reads the arguments behind the program's name and the subcommand.
pub fn scan_flags(program: Program, args: &Vec<String>) -> (flags: Result<Flags, String>)
    ensures
        agrees(
            flags,
            scanned(program, texts(args@), 2, nothing_given()),
        ),
{
    let ghost all = texts(args@);
    let mut flags = Flags::none();
    let mut i: usize = 2;
    while i < args.len()
        invariant
            all == texts(args@),
            scanned(program, all, 2, nothing_given()) == scanned(program, all, i as int, flags@),
        decreases args@.len() - i,
    {
        let arg = args[i].as_str();
        assert(arg@ == all[i as int]);
        if is_value_flag(program, arg) {
            let value: Option<String> = if i < args.len() - 1 {
                Some(args[i + 1].clone())
            } else {
                None
            };
            match flags.take_value(arg, value) {
                Ok(()) => {},
                Err(complaint) => {
                    return Err(complaint);
                },
            }
            i = i + 2;
        } else {
            match flags.take_positional(arg) {
                Ok(()) => {},
                Err(complaint) => {
                    return Err(complaint);
                },
            }
            i = i + 1;
        }
    }
    Ok(flags)
}

/// What a subcommand tells a program to do, with the port and the peer that were
/// given.
pub open spec fn command_of(
    word: Seq<char>,
    virt_port: Option<u16>,
    target: Option<(Seq<char>, u16)>,
) -> Result<Command, Seq<char>> {
    if word == "listen"@ {
        match virt_port {
            Some(virt_port) => Ok(Command::Listen { virt_port }),
            None => Err("listen needs --virt-port"@),
        }
    } else if word == "dial"@ {
        match target {
            Some(target) => Ok(Command::Dial { target }),
            None => Err("dial needs a host:port target"@),
        }
    } else {
        Err("unknown subcommand "@ + word)
    }
}

/// What a subcommand tells a program to do, with the port and the peer that were
/// given.
pub fn choose_command(word: &str, virt_port: Option<u16>, target: Option<OnionAddr>) -> (cmd:
    Result<Cmd, String>)
    ensures
        agrees(cmd, command_of(word@, virt_port, peer_of(target))),
{
    if same_text(word, "listen") {
        match virt_port {
            Some(virt_port) => Ok(Cmd::Listen { virt_port }),
            None => Err("listen needs --virt-port".to_owned()),
        }
    } else if same_text(word, "dial") {
        match target {
            Some(target) => Ok(Cmd::Dial { target }),
            None => Err("dial needs a host:port target".to_owned()),
        }
    } else {
        let mut text = "unknown subcommand ".to_owned();
        text.append(word);
        Err(text)
    }
}

/// Whether `flag` stands at the place `at` behind the subcommand, with `value` right
/// behind it.
pub open spec fn stands_at(args: Seq<Seq<char>>, at: int, flag: Seq<char>, value: Seq<char>) -> bool {
    2 <= at && at + 1 < args.len() && args[at] == flag && args[at + 1] == value
}

/// A plugin, a private-net file or a state directory that was given is the value
/// of its flag: it stands right behind that flag among the arguments.
pub proof fn values_come_from_their_flags(
    program: Program,
    args: Seq<Seq<char>>,
    i: int,
    given: Given,
)
    requires
        2 <= i,
        scanned(program, args, i, given) is Ok,
    ensures
        ({
            let found = scanned(program, args, i, given)->Ok_0;
            &&& found.plugin matches Some(path) ==> given.plugin == Some(path) || exists|at: int|
                stands_at(args, at, "--plugin"@, path)
            &&& found.private_net matches Some(file) ==> given.private_net == Some(file)
                || exists|at: int| stands_at(args, at, "--private-net"@, file)
            &&& found.state_dir matches Some(dir) ==> given.state_dir == Some(dir) || exists|at: int|
                stands_at(args, at, "--state-dir"@, dir)
        }),
    decreases args.len() - i,
{
    if i < args.len() {
        if takes_value(program, args[i]) {
            let value = if i + 1 < args.len() {
                Some(args[i + 1])
            } else {
                None
            };
            let more = with_value(given, args[i], value)->Ok_0;
            values_come_from_their_flags(program, args, i + 2, more);
            if i + 1 < args.len() {
                assert(stands_at(args, i, args[i], args[i + 1]));
            }
        } else {
            let more = with_positional(given, args[i])->Ok_0;
            values_come_from_their_flags(program, args, i + 1, more);
        }
    }
}

/// The harness knows nothing of backends, and the end-to-end program nothing of
/// plugins.
pub proof fn each_program_has_its_own_flag(
    program: Program,
    args: Seq<Seq<char>>,
    i: int,
    given: Given,
)
    requires
        scanned(program, args, i, given) is Ok,
    ensures
        program == Program::Harness ==> scanned(program, args, i, given)->Ok_0.backend
            == given.backend,
        program == Program::E2e ==> scanned(program, args, i, given)->Ok_0.plugin == given.plugin,
    decreases args.len() - i,
{
    if i < args.len() {
        if takes_value(program, args[i]) {
            let value = if i + 1 < args.len() {
                Some(args[i + 1])
            } else {
                None
            };
            let more = with_value(given, args[i], value)->Ok_0;
            flags_are_distinct();
            each_program_has_its_own_flag(program, args, i + 2, more);
        } else {
            let more = with_positional(given, args[i])->Ok_0;
            each_program_has_its_own_flag(program, args, i + 1, more);
        }
    }
}

proof fn flags_are_distinct()
    ensures
        "--backend"@ != "--plugin"@,
{
    reveal_strlit("--backend");
    reveal_strlit("--plugin");
    assert("--backend"@[2] != "--plugin"@[2]);
}

/// A backend that was given is the one that the argument right behind a
/// `--backend` flag names.
pub proof fn backend_comes_from_its_flag(args: Seq<Seq<char>>, i: int, given: Given)
    requires
        2 <= i,
        scanned(Program::E2e, args, i, given) is Ok,
    ensures
        ({
            let found = scanned(Program::E2e, args, i, given)->Ok_0;
            found.backend matches Some(backend) ==> given.backend == Some(backend) || exists|at: int|
                2 <= at && at + 1 < args.len() && #[trigger] args[at] == "--backend"@
                    && backend_of(args[at + 1]) == Some(backend)
        }),
    decreases args.len() - i,
{
    if i < args.len() {
        if takes_value(Program::E2e, args[i]) {
            let value = if i + 1 < args.len() {
                Some(args[i + 1])
            } else {
                None
            };
            let more = with_value(given, args[i], value)->Ok_0;
            backend_comes_from_its_flag(args, i + 2, more);
        } else {
            let more = with_positional(given, args[i])->Ok_0;
            backend_comes_from_its_flag(args, i + 1, more);
        }
    }
}

/// What a command line gives, from its start.
pub open spec fn scan_of(program: Program, args: Seq<Seq<char>>) -> Result<Given, Seq<char>> {
    scanned(program, args, 2, nothing_given())
}

/// A scan that went well goes on behind its last argument with what it found.
proof fn scan_goes_on(
    program: Program,
    args: Seq<Seq<char>>,
    rest: Seq<Seq<char>>,
    i: int,
    given: Given,
)
    requires
        0 <= i <= args.len(),
        scanned(program, args, i, given) is Ok,
    ensures
        scanned(program, args + rest, i, given) == scanned(
            program,
            args + rest,
            args.len() as int,
            scanned(program, args, i, given)->Ok_0,
        ),
    decreases args.len() - i,
{
    let all = args + rest;
    if i < args.len() {
        assert(all[i] == args[i]);
        if takes_value(program, args[i]) {
            assert(i + 1 < args.len());
            assert(all[i + 1] == args[i + 1]);
            let more = with_value(given, args[i], Some(args[i + 1]))->Ok_0;
            scan_goes_on(program, args, rest, i + 2, more);
        } else {
            let more = with_positional(given, args[i])->Ok_0;
            scan_goes_on(program, args, rest, i + 1, more);
        }
    }
}

/// The flags all start as flags do, and are different.
proof fn flags_are_flags()
    ensures
        is_flag("--private-net"@),
        is_flag("--virt-port"@),
        is_flag("--state-dir"@),
        is_flag("--plugin"@),
        is_flag("--backend"@),
        "--private-net"@ != "--virt-port"@,
        "--private-net"@ != "--state-dir"@,
        "--private-net"@ != "--plugin"@,
        "--private-net"@ != "--backend"@,
        "--virt-port"@ != "--state-dir"@,
        "--virt-port"@ != "--plugin"@,
        "--virt-port"@ != "--backend"@,
        "--state-dir"@ != "--plugin"@,
        "--state-dir"@ != "--backend"@,
        "--plugin"@ != "--backend"@,
{
    reveal_strlit("--private-net");
    reveal_strlit("--virt-port");
    reveal_strlit("--state-dir");
    reveal_strlit("--plugin");
    reveal_strlit("--backend");
    assert("--private-net"@[3] == 'r');
    assert("--virt-port"@[2] == 'v');
    assert("--state-dir"@[2] == 's');
    assert("--plugin"@[3] == 'l');
    assert("--backend"@[2] == 'b');
    assert("--private-net"@[2] == 'p');
    assert("--plugin"@[2] == 'p');
}

/// What two more arguments do to a scan that went well.
proof fn two_more_arguments(
    program: Program,
    args: Seq<Seq<char>>,
    flag: Seq<char>,
    value: Seq<char>,
    rest: Seq<Seq<char>>,
)
    requires
        args.len() >= 2,
        scan_of(program, args) is Ok,
        takes_value(program, flag),
    ensures
        match with_value(scan_of(program, args)->Ok_0, flag, Some(value)) {
            Ok(more) => scan_of(program, args + seq![flag, value]) == Ok::<Given, Seq<char>>(more),
            Err(words) => scan_of(program, args + (seq![flag, value] + rest)) == Err::<
                Given,
                Seq<char>,
            >(words),
        },
{
    let n = args.len() as int;
    let behind = seq![flag, value] + rest;
    scan_goes_on(program, args, behind, 2, nothing_given());
    assert((args + behind)[n] == behind[0] && (args + behind)[n + 1] == behind[1]);
    scan_goes_on(program, args, seq![flag, value], 2, nothing_given());
    let all = args + seq![flag, value];
    assert(all[n] == flag && all[n + 1] == value);
    reveal_with_fuel(scanned, 2);
}

/// What one more argument does to a scan that went well.
proof fn one_more_argument(
    program: Program,
    args: Seq<Seq<char>>,
    arg: Seq<char>,
    rest: Seq<Seq<char>>,
)
    requires
        args.len() >= 2,
        scan_of(program, args) is Ok,
    ensures
        takes_value(program, arg) ==> scan_of(program, args.push(arg)) == with_value(
            scan_of(program, args)->Ok_0,
            arg,
            None,
        ),
        !takes_value(program, arg) ==> match with_positional(scan_of(program, args)->Ok_0, arg) {
            Ok(more) => scan_of(program, args.push(arg)) == Ok::<Given, Seq<char>>(more),
            Err(words) => scan_of(program, args.push(arg) + rest) == Err::<Given, Seq<char>>(words),
        },
{
    let n = args.len() as int;
    assert(args.push(arg) =~= args + seq![arg]);
    assert(args.push(arg) + rest =~= args + (seq![arg] + rest));
    scan_goes_on(program, args, seq![arg], 2, nothing_given());
    scan_goes_on(program, args, seq![arg] + rest, 2, nothing_given());
    assert((args + seq![arg])[n] == arg);
    assert((args + (seq![arg] + rest))[n] == arg);
    reveal_with_fuel(scanned, 2);
}

/// Without arguments behind the subcommand nothing is given.
pub proof fn no_arguments_give_nothing(program: Program, args: Seq<Seq<char>>)
    requires
        args.len() <= 2,
    ensures
        scan_of(program, args) matches Ok(given) && given.backend is None && given.plugin is None
            && given.private_net is None && given.state_dir is None && given.virt_port is None
            && given.target is None,
{
}

/// A flag with its value behind arguments that were taken sets what it is for to that
/// value, whatever it was before, and leaves everything else as it was.
pub proof fn flags_set_their_own_field(program: Program, args: Seq<Seq<char>>, value: Seq<char>)
    requires
        args.len() >= 2,
        scan_of(program, args) is Ok,
    ensures
        ({
            let had = scan_of(program, args)->Ok_0;
            &&& scan_of(program, args + seq!["--private-net"@, value]) == Ok::<Given, Seq<char>>(
                Given { private_net: Some(value), ..had },
            )
            &&& scan_of(program, args + seq!["--state-dir"@, value]) == Ok::<Given, Seq<char>>(
                Given { state_dir: Some(value), ..had },
            )
            &&& u16_of(value) matches Ok(port) ==> scan_of(
                program,
                args + seq!["--virt-port"@, value],
            ) == Ok::<Given, Seq<char>>(Given { virt_port: Some(port), ..had })
            &&& program == Program::Harness ==> scan_of(
                program,
                args + seq!["--plugin"@, value],
            ) == Ok::<Given, Seq<char>>(Given { plugin: Some(value), ..had })
            &&& program == Program::E2e && value == "socks5h"@ ==> scan_of(
                program,
                args + seq!["--backend"@, value],
            ) == Ok::<Given, Seq<char>>(Given { backend: Some(BackendKind::Socks5h), ..had })
            &&& program == Program::E2e && value == "arti"@ ==> scan_of(
                program,
                args + seq!["--backend"@, value],
            ) == Ok::<Given, Seq<char>>(Given { backend: Some(BackendKind::Arti), ..had })
        }),
{
    flags_are_flags();
    backends_have_one_name(value);
    let rest = Seq::<Seq<char>>::empty();
    two_more_arguments(program, args, "--private-net"@, value, rest);
    two_more_arguments(program, args, "--state-dir"@, value, rest);
    two_more_arguments(program, args, "--virt-port"@, value, rest);
    if program == Program::Harness {
        two_more_arguments(program, args, "--plugin"@, value, rest);
    } else {
        two_more_arguments(program, args, "--backend"@, value, rest);
    }
}

/// The first argument that does not look like a flag is the peer.
pub proof fn first_plain_argument_is_the_peer(
    program: Program,
    args: Seq<Seq<char>>,
    host: Seq<char>,
    port: Seq<char>,
)
    requires
        args.len() >= 2,
        scan_of(program, args) is Ok,
        (scan_of(program, args)->Ok_0).target is None,
        !is_flag(host + seq![':'] + port),
        !port.contains(':'),
        u16_of(port) is Ok,
    ensures
        scan_of(program, args.push(host + seq![':'] + port)) == Ok::<Given, Seq<char>>(
            Given {
                target: Some((host, u16_of(port)->Ok_0)),
                ..(scan_of(program, args)->Ok_0)
            },
        ),
{
    flags_are_flags();
    peers_are_host_and_port(host, port);
    one_more_argument(program, args, host + seq![':'] + port, Seq::empty());
}

/// What cannot be taken is complained of, each in its own words, whatever stands behind
/// it: a flag without its value at the end, a value that is none, a peer that is none,
/// a second peer, and what looks like a flag and is none of this program.
pub proof fn faulty_arguments_are_complained_of(
    program: Program,
    args: Seq<Seq<char>>,
    arg: Seq<char>,
    value: Seq<char>,
    rest: Seq<Seq<char>>,
)
    requires
        args.len() >= 2,
        scan_of(program, args) is Ok,
    ensures
        scan_of(program, args.push("--private-net"@)) == Err::<Given, Seq<char>>(
            "--private-net needs a file"@,
        ),
        scan_of(program, args.push("--virt-port"@)) == Err::<Given, Seq<char>>(
            "--virt-port needs a number"@,
        ),
        scan_of(program, args.push("--state-dir"@)) == Err::<Given, Seq<char>>(
            "--state-dir needs a path"@,
        ),
        program == Program::Harness ==> scan_of(program, args.push("--plugin"@)) == Err::<
            Given,
            Seq<char>,
        >("--plugin needs a path"@),
        program == Program::E2e ==> scan_of(program, args.push("--backend"@)) == Err::<
            Given,
            Seq<char>,
        >("--backend socks5h|arti, got None"@),
        u16_of(value) matches Err(error) ==> scan_of(
            program,
            args + (seq!["--virt-port"@, value] + rest),
        ) == Err::<Given, Seq<char>>(error.message()),
        program == Program::E2e && value != "socks5h"@ && value != "arti"@ ==> scan_of(
            program,
            args + (seq!["--backend"@, value] + rest),
        ) == Err::<Given, Seq<char>>("--backend socks5h|arti, got Some("@ + quoted(value) + ")"@),
        !is_flag(arg) && (scan_of(program, args)->Ok_0).target is None && !arg.contains(':') ==>
            scan_of(program, args.push(arg) + rest) == Err::<Given, Seq<char>>(
            "target must be host:port"@,
        ),
        !is_flag(arg) && (scan_of(program, args)->Ok_0).target is Some ==> scan_of(
            program,
            args.push(arg) + rest,
        ) == Err::<Given, Seq<char>>("unknown argument "@ + arg),
        is_flag(arg) && arg != "--private-net"@ && arg != "--virt-port"@ && arg != "--state-dir"@
            && !(program == Program::Harness && arg == "--plugin"@) && !(program == Program::E2e
            && arg == "--backend"@) ==> scan_of(program, args.push(arg) + rest) == Err::<
            Given,
            Seq<char>,
        >("unknown argument "@ + arg),
{
    flags_are_flags();
    backends_have_one_name(value);
    split_joins_back(arg);
    one_more_argument(program, args, "--private-net"@, rest);
    one_more_argument(program, args, "--virt-port"@, rest);
    one_more_argument(program, args, "--state-dir"@, rest);
    one_more_argument(program, args, arg, rest);
    two_more_arguments(program, args, "--virt-port"@, value, rest);
    if program == Program::Harness {
        one_more_argument(program, args, "--plugin"@, rest);
    } else {
        one_more_argument(program, args, "--backend"@, rest);
        two_more_arguments(program, args, "--backend"@, value, rest);
    }
}

/// A peer whose port is no number is complained of in the words for that number.
pub proof fn peer_with_a_bad_port_is_complained_of(
    program: Program,
    args: Seq<Seq<char>>,
    host: Seq<char>,
    port: Seq<char>,
    rest: Seq<Seq<char>>,
)
    requires
        args.len() >= 2,
        scan_of(program, args) is Ok,
        (scan_of(program, args)->Ok_0).target is None,
        !is_flag(host + seq![':'] + port),
        !port.contains(':'),
        u16_of(port) is Err,
    ensures
        scan_of(program, args.push(host + seq![':'] + port) + rest) == Err::<Given, Seq<char>>(
            (u16_of(port)->Err_0).message(),
        ),
{
    flags_are_flags();
    peers_are_host_and_port(host, port);
    one_more_argument(program, args, host + seq![':'] + port, rest);
}

/// A peer is what stands before its last colon and the number behind it, each as it is.
pub proof fn peers_are_host_and_port(host: Seq<char>, port: Seq<char>)
    requires
        !port.contains(':'),
    ensures
        match u16_of(port) {
            Ok(number) => target_of(host + seq![':'] + port) == Ok::<(Seq<char>, u16), Seq<char>>(
                (host, number),
            ),
            Err(error) => target_of(host + seq![':'] + port) == Err::<(Seq<char>, u16), Seq<char>>(
                error.message(),
            ),
        },
        !host.contains(':') ==> target_of(host) == Err::<(Seq<char>, u16), Seq<char>>(
            "target must be host:port"@,
        ),
{
    assert forall|j: int| 0 <= j < port.len() implies port[j] != ':' by {
        assert(port.contains(port[j]));
    }
    split_of_joined(host, port);
    split_joins_back(host);
}

/// Each backend has one name, and other names are of none.
pub proof fn backends_have_one_name(name: Seq<char>)
    ensures
        backend_of(name) == Some(BackendKind::Socks5h) <==> name == "socks5h"@,
        backend_of(name) == Some(BackendKind::Arti) <==> name == "arti"@,
        backend_of(name) is None <==> name != "socks5h"@ && name != "arti"@,
{
    reveal_strlit("socks5h");
    reveal_strlit("arti");
    assert("socks5h"@.len() != "arti"@.len());
}

/// A listening command has the port that was given and a dialing one the peer; without
/// what it needs, and for any other word, there is none.
pub proof fn commands_do_what_their_word_says(
    word: Seq<char>,
    virt_port: Option<u16>,
    target: Option<(Seq<char>, u16)>,
    port: u16,
    peer: (Seq<char>, u16),
)
    ensures
        command_of(word, virt_port, target) == Ok::<Command, Seq<char>>(
            Command::Listen { virt_port: port },
        ) <==> word == "listen"@ && virt_port == Some(port),
        command_of(word, virt_port, target) == Ok::<Command, Seq<char>>(
            Command::Dial { target: peer },
        ) <==> word == "dial"@ && target == Some(peer),
        word == "listen"@ && virt_port is None ==> command_of(word, virt_port, target) == Err::<
            Command,
            Seq<char>,
        >("listen needs --virt-port"@),
        word == "dial"@ && target is None ==> command_of(word, virt_port, target) == Err::<
            Command,
            Seq<char>,
        >("dial needs a host:port target"@),
        word != "listen"@ && word != "dial"@ ==> command_of(word, virt_port, target) == Err::<
            Command,
            Seq<char>,
        >("unknown subcommand "@ + word),
{
    reveal_strlit("listen");
    reveal_strlit("dial");
    assert("listen"@.len() != "dial"@.len());
}

/// The complaint about a backend holds the whole of what was given for one.
pub proof fn backend_complaint_names_what_was_given(name: Seq<char>)
    ensures
        backend_complaint_text(Some(name)) == "--backend socks5h|arti, got Some("@ + name + ")"@,
        backend_complaint_text(None) == "--backend socks5h|arti, got None"@,
{
}

/// Commands, flags and paths say the same as their contents.
pub proof fn command_lines_hide_nothing(cmd: Cmd, flags: Flags, path: FilePath)
    ensures
        cmd matches Cmd::Listen { virt_port } ==> cmd@ == (Command::Listen { virt_port }),
        cmd matches Cmd::Dial { target } ==> cmd@ == (Command::Dial { target: target@ }),
        flags@.backend == flags.backend,
        flags@.plugin == text_of(flags.plugin),
        flags@.private_net == text_of(flags.private_net),
        flags@.state_dir == text_of(flags.state_dir),
        flags@.virt_port == flags.virt_port,
        flags.target is Some <==> flags@.target is Some,
        flags.target matches Some(peer) ==> flags@.target == Some(peer@),
        path matches FilePath::Whole(all) ==> path@ == PathText::Whole(all@),
        path matches FilePath::Under { dir, leaf } ==> path@ == (PathText::Under {
            dir: dir@,
            leaf: leaf@,
        }),
{
}

} // verus!
