//! The listen/dial driver: which step comes next, how long it may take, and what
//! is printed. The lines `ONION=<address>`, `READY` and `OK` on standard output
//! are what a test of the programs waits for.

use crate::addr::OnionAddr;
use crate::cli::Cmd;
use crate::text::{text_of, texts};
use vstd::prelude::*;

verus! {

/// Bounded wait for every network step: a test must fail, not hang.
pub const STEP_TIMEOUT_SECS: u64 = 300;

/// Bounded wait for accepting a peer. It must cover the dialer's full retry
/// budget, so it is wider than [`STEP_TIMEOUT_SECS`].
pub const ACCEPT_TIMEOUT_SECS: u64 = 900;

/// How a service is published.
#[derive(Debug, Clone, PartialEq, Eq)]
pub struct ListenParams {
    pub virt_port: u16,
    pub nickname: Option<String>,
}

impl ListenParams {
    /// A service on a virtual port, without a nickname.
    pub fn new(virt_port: u16) -> (params: Self)
        ensures
            params.virt_port == virt_port,
            params.nickname is None,
    {
        ListenParams { virt_port, nickname: None }
    }

    /// The same service under a nickname.
    pub fn with_nickname(self, nickname: &str) -> (params: Self)
        ensures
            params.virt_port == self.virt_port,
            params.nickname matches Some(name) && name@ == nickname@,
    {
        ListenParams { virt_port: self.virt_port, nickname: Some(nickname.to_owned()) }
    }
}

/// What a command comes to, whatever the backend.
#[derive(Debug, Clone, PartialEq, Eq)]
pub enum Job {
    /// Publish this service and echo the messages of one peer.
    Listen(ListenParams),
    /// Run the message sequence with this peer.
    Dial(OnionAddr),
}

/// What a command comes to: a service is published under the programs' nickname.
pub fn job_of(cmd: Cmd) -> (job: Job)
    ensures
        match cmd {
            Cmd::Listen { virt_port } => job matches Job::Listen(params) && params.virt_port
                == virt_port && text_of(params.nickname) == Some("fungie2e"@),
            Cmd::Dial { target } => job == Job::Dial(target),
        },
{
    match cmd {
        Cmd::Listen { virt_port } => Job::Listen(
            ListenParams::new(virt_port).with_nickname("fungie2e"),
        ),
        Cmd::Dial { target } => Job::Dial(target),
    }
}

/// A step that the driver awaits.
#[derive(Debug, Clone, Copy, PartialEq, Eq, Structural)]
pub enum Phase {
    /// The service is published.
    Listen,
    /// One peer is accepted.
    Accept,
    /// Messages of that peer are echoed until it closes.
    Echo,
    /// A peer is connected to.
    Connect,
    /// The message sequence runs with that peer.
    Sequence,
}

/// How an awaited step ended.
#[derive(Debug, Clone, PartialEq, Eq)]
pub enum Outcome {
    /// It did not end in time.
    TimedOut,
    /// It failed, for the reason given.
    Failed(String),
    /// It succeeded. Publishing gives the address; of the other steps the text is
    /// not looked at.
    Done(String),
}

/// What the driver does: it prints lines, then awaits a step or ends.
#[derive(Debug, PartialEq, Eq)]
pub enum Drive {
    Await { print: Vec<String>, phase: Phase, timeout_secs: u64 },
    Exit { print: Vec<String>, result: Result<(), String> },
}

/// The mathematical content of an [`Outcome`].
#[verifier::ext_equal]
pub enum Ended {
    TimedOut,
    Failed(Seq<char>),
    Done(Seq<char>),
}

/// The mathematical content of a [`Drive`].
#[verifier::ext_equal]
pub enum Move {
    Await { print: Seq<Seq<char>>, phase: Phase, timeout_secs: u64 },
    Exit { print: Seq<Seq<char>>, result: Result<(), Seq<char>> },
}

impl View for Outcome {
    type V = Ended;

    open spec fn view(&self) -> Ended {
        match self {
            Outcome::TimedOut => Ended::TimedOut,
            Outcome::Failed(reason) => Ended::Failed(reason@),
            Outcome::Done(text) => Ended::Done(text@),
        }
    }
}

impl View for Drive {
    type V = Move;

    open spec fn view(&self) -> Move {
        match self {
            Drive::Await { print, phase, timeout_secs } => Move::Await {
                print: texts(print@),
                phase: *phase,
                timeout_secs: *timeout_secs,
            },
            Drive::Exit { print, result } => Move::Exit {
                print: texts(print@),
                result: match result {
                    Ok(()) => Ok(()),
                    Err(reason) => Err(reason@),
                },
            },
        }
    }
}

/// How long a step may take.
pub open spec fn limit(phase: Phase) -> u64 {
    if phase == Phase::Accept {
        ACCEPT_TIMEOUT_SECS
    } else {
        STEP_TIMEOUT_SECS
    }
}

/// The complaint about a step that took too long.
pub open spec fn too_slow(phase: Phase) -> Seq<char> {
    match phase {
        Phase::Listen => "listen timed out"@,
        Phase::Accept => "accept timed out"@,
        Phase::Connect => "connect timed out"@,
        Phase::Echo | Phase::Sequence => "echo/dial phase timed out"@,
    }
}

/// Awaiting a step, with lines printed before.
pub open spec fn awaiting(print: Seq<Seq<char>>, phase: Phase) -> Move {
    Move::Await { print, phase, timeout_secs: limit(phase) }
}

/// What follows a step. A step that does not succeed ends the program with its
/// complaint.
pub open spec fn after(phase: Phase, ended: Ended) -> Move {
    match ended {
        Ended::TimedOut => Move::Exit { print: Seq::empty(), result: Err(too_slow(phase)) },
        Ended::Failed(reason) => Move::Exit { print: Seq::empty(), result: Err(reason) },
        Ended::Done(text) => match phase {
            Phase::Listen => awaiting(seq!["ONION="@ + text, "READY"@], Phase::Accept),
            Phase::Accept => awaiting(Seq::empty(), Phase::Echo),
            Phase::Connect => awaiting(Seq::empty(), Phase::Sequence),
            Phase::Echo => Move::Exit { print: Seq::empty(), result: Ok(()) },
            Phase::Sequence => Move::Exit { print: seq!["OK"@], result: Ok(()) },
        },
    }
}

/// The first step of a listening program.
pub fn start_listen() -> (drive: Drive)
    ensures
        drive@ == awaiting(Seq::empty(), Phase::Listen),
{
    let print: Vec<String> = Vec::new();
    assert(texts(print@) =~= Seq::empty());
    Drive::Await { print, phase: Phase::Listen, timeout_secs: STEP_TIMEOUT_SECS }
}

/// The first step of a dialing program.
pub fn start_dial() -> (drive: Drive)
    ensures
        drive@ == awaiting(Seq::empty(), Phase::Connect),
{
    let print: Vec<String> = Vec::new();
    assert(texts(print@) =~= Seq::empty());
    Drive::Await { print, phase: Phase::Connect, timeout_secs: STEP_TIMEOUT_SECS }
}

/// The complaint about a step that took too long.
fn timeout_complaint(phase: Phase) -> (text: String)
    ensures
        text@ == too_slow(phase),
{
    match phase {
        Phase::Listen => "listen timed out".to_owned(),
        Phase::Accept => "accept timed out".to_owned(),
        Phase::Connect => "connect timed out".to_owned(),
        Phase::Echo | Phase::Sequence => "echo/dial phase timed out".to_owned(),
    }
}

/// What follows a step that ended.
pub fn on_outcome(phase: Phase, outcome: Outcome) -> (drive: Drive)
    ensures
        drive@ == after(phase, outcome@),
{
    let mut print: Vec<String> = Vec::new();
    assert(texts(print@) =~= Seq::empty());
    match outcome {
        Outcome::TimedOut => Drive::Exit { print, result: Err(timeout_complaint(phase)) },
        Outcome::Failed(reason) => Drive::Exit { print, result: Err(reason) },
        Outcome::Done(text) => match phase {
            Phase::Listen => {
                let mut onion = "ONION=".to_owned();
                onion.append(text.as_str());
                print.push(onion);
                print.push("READY".to_owned());
                assert(texts(print@) =~= seq!["ONION="@ + text@, "READY"@]);
                Drive::Await { print, phase: Phase::Accept, timeout_secs: ACCEPT_TIMEOUT_SECS }
            },
            Phase::Accept => Drive::Await {
                print,
                phase: Phase::Echo,
                timeout_secs: STEP_TIMEOUT_SECS,
            },
            Phase::Connect => Drive::Await {
                print,
                phase: Phase::Sequence,
                timeout_secs: STEP_TIMEOUT_SECS,
            },
            Phase::Echo => Drive::Exit { print, result: Ok(()) },
            Phase::Sequence => {
                print.push("OK".to_owned());
                assert(texts(print@) =~= seq!["OK"@]);
                Drive::Exit { print, result: Ok(()) }
            },
        },
    }
}

/// Accepting may take longer than any other step.
pub proof fn accepting_has_the_widest_limit(phase: Phase)
    ensures
        limit(phase) <= limit(Phase::Accept),
        phase != Phase::Accept ==> limit(phase) < limit(Phase::Accept),
{
}

/// What is printed from a step on, if the steps end in the given ways.
pub open spec fn printed(phase: Phase, ends: Seq<Ended>) -> Seq<Seq<char>>
    decreases ends.len(),
{
    if ends.len() == 0 {
        Seq::empty()
    } else {
        match after(phase, ends[0]) {
            Move::Await { print, phase: next, .. } => print + printed(next, ends.skip(1)),
            Move::Exit { print, .. } => print,
        }
    }
}

/// How the program ends from a step on, if the steps end in the given ways and it
/// ends.
pub open spec fn exit(phase: Phase, ends: Seq<Ended>) -> Option<Result<(), Seq<char>>>
    decreases ends.len(),
{
    if ends.len() == 0 {
        None
    } else {
        match after(phase, ends[0]) {
            Move::Await { phase: next, .. } => exit(next, ends.skip(1)),
            Move::Exit { result, .. } => Some(result),
        }
    }
}

/// A dialing program says `OK` exactly when it succeeds, and nothing else.
pub proof fn dial_says_ok_on_success_alone(ends: Seq<Ended>)
    ensures
        exit(Phase::Connect, ends) == Some(Ok::<(), Seq<char>>(())) ==> printed(
            Phase::Connect,
            ends,
        ) == seq!["OK"@],
        exit(Phase::Connect, ends) != Some(Ok::<(), Seq<char>>(())) ==> printed(
            Phase::Connect,
            ends,
        ) == Seq::<Seq<char>>::empty(),
{
    reveal_with_fuel(printed, 3);
    reveal_with_fuel(exit, 3);
    assert(Seq::<Seq<char>>::empty() + seq!["OK"@] =~= seq!["OK"@]);
    assert(Seq::<Seq<char>>::empty() + Seq::<Seq<char>>::empty() =~= Seq::empty());
}

/// A listening program announces itself exactly when its service is published,
/// with the address that publishing gave, before it accepts anybody, and says
/// nothing after that.
pub proof fn listen_announces_what_is_published(ends: Seq<Ended>)
    ensures
        ends.len() > 0 && ends[0] is Done ==> printed(Phase::Listen, ends) == seq![
            "ONION="@ + ends[0]->Done_0,
            "READY"@,
        ],
        ends.len() == 0 || ends[0] !is Done ==> printed(Phase::Listen, ends) == Seq::<
            Seq<char>,
        >::empty(),
        exit(Phase::Listen, ends) == Some(Ok::<(), Seq<char>>(())) ==> ends[0] is Done,
{
    reveal_with_fuel(printed, 4);
    reveal_with_fuel(exit, 4);
    if ends.len() > 0 && ends[0] is Done {
        let lines = seq!["ONION="@ + ends[0]->Done_0, "READY"@];
        assert(Seq::<Seq<char>>::empty() + Seq::<Seq<char>>::empty() =~= Seq::empty());
        assert(lines + Seq::empty() =~= lines);
    }
}

/// The first step that does not succeed ends the program, with its complaint.
pub proof fn first_failure_ends_the_program(phase: Phase, ended: Ended, more: Seq<Ended>)
    requires
        ended !is Done,
    ensures
        exit(phase, seq![ended] + more) == Some(
            Err::<(), Seq<char>>(
                match ended {
                    Ended::Failed(reason) => reason,
                    _ => too_slow(phase),
                },
            ),
        ),
        printed(phase, seq![ended] + more) == Seq::<Seq<char>>::empty(),
{
}

/// A program succeeds exactly if each of its steps does: connecting and the message
/// sequence of a dialing one, publishing, accepting and echoing of a listening one.
pub proof fn success_needs_every_step(ends: Seq<Ended>)
    ensures
        exit(Phase::Connect, ends) == Some(Ok::<(), Seq<char>>(())) <==> ends.len() >= 2 && ends[0]
            is Done && ends[1] is Done,
        exit(Phase::Listen, ends) == Some(Ok::<(), Seq<char>>(())) <==> ends.len() >= 3 && ends[0]
            is Done && ends[1] is Done && ends[2] is Done,
{
    reveal_with_fuel(exit, 4);
    if ends.len() >= 1 {
        assert(ends.len() >= 2 ==> ends.skip(1)[0] == ends[1]);
        assert(ends.len() >= 3 ==> ends.skip(1).skip(1)[0] == ends[2]);
    }
}

/// The first step that does not succeed is what a program ends with: its own reason,
/// or that it took too long, whatever succeeded before it.
pub proof fn failure_is_reported_as_it_is(phase: Phase, reason: Seq<char>)
    ensures
        after(phase, Ended::Failed(reason)) == (Move::Exit {
            print: Seq::empty(),
            result: Err(reason),
        }),
        after(phase, Ended::TimedOut) matches Move::Exit { print, result } && print.len() == 0
            && result == Err::<(), Seq<char>>(
            if phase == Phase::Listen {
                "listen timed out"@
            } else if phase == Phase::Accept {
                "accept timed out"@
            } else if phase == Phase::Connect {
                "connect timed out"@
            } else {
                "echo/dial phase timed out"@
            },
        ),
{
}

/// Every step that is awaited may take its time: fifteen minutes to accept a peer, five
/// for anything else.
pub proof fn awaited_steps_have_their_limits(phase: Phase, ended: Ended)
    ensures
        after(phase, ended) matches Move::Await { phase: next, timeout_secs, .. } ==> timeout_secs
            == (if next == Phase::Accept {
            900u64
        } else {
            300u64
        }),
        after(phase, ended) is Await ==> ended is Done,
{
}

/// Outcomes and moves say the same as their contents.
pub proof fn driver_hides_nothing(outcome: Outcome, drive: Drive)
    ensures
        outcome matches Outcome::Failed(reason) ==> outcome@ == Ended::Failed(reason@),
        outcome matches Outcome::Done(text) ==> outcome@ == Ended::Done(text@),
        outcome is TimedOut ==> outcome@ is TimedOut,
        drive matches Drive::Await { print, phase, timeout_secs } ==> drive@ == (Move::Await {
            print: texts(print@),
            phase,
            timeout_secs,
        }),
        drive matches Drive::Exit { print, result: Ok(()) } ==> drive@ == (Move::Exit {
            print: texts(print@),
            result: Ok(()),
        }),
        drive matches Drive::Exit { print, result: Err(reason) } ==> drive@ == (Move::Exit {
            print: texts(print@),
            result: Err(reason@),
        }),
{
}

} // verus!
