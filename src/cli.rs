//! Startup decisions: what the command line asks for, and whether a
//! hidden service is ready to take connections.

use vstd::prelude::*;
use crate::text::chars_of;

verus! {

/// What the program was asked to do.
pub enum Mode {
    /// `--reset`: delete the stored state and exit.
    Reset,
    /// `initiate ADDRESS`: connect to a peer.
    Initiate(String),
    /// `listen`: publish an address and wait for a peer.
    Listen,
}

#[derive(Debug, PartialEq, Eq)]
pub enum UsageError {
    /// No mode was given.
    MissingMode,
    /// `initiate` without an address.
    MissingAddress,
    /// A mode that is not known.
    UnknownMode(String),
}

pub enum ModeView {
    Reset,
    Initiate(Seq<char>),
    Listen,
}

pub enum UsageErrorView {
    MissingMode,
    MissingAddress,
    UnknownMode(Seq<char>),
}

pub open spec fn reset_flag() -> Seq<char> {
    seq!['-', '-', 'r', 'e', 's', 'e', 't']
}

pub open spec fn initiate_word() -> Seq<char> {
    seq!['i', 'n', 'i', 't', 'i', 'a', 't', 'e']
}

pub open spec fn listen_word() -> Seq<char> {
    seq!['l', 'i', 's', 't', 'e', 'n']
}

/// The meaning of the arguments, the program's name first.
pub open spec fn mode_of(args: Seq<Seq<char>>) -> Result<ModeView, UsageErrorView> {
    if args.len() < 2 {
        Err(UsageErrorView::MissingMode)
    } else if args[1] == reset_flag() {
        Ok(ModeView::Reset)
    } else if args[1] == initiate_word() {
        if args.len() < 3 {
            Err(UsageErrorView::MissingAddress)
        } else {
            Ok(ModeView::Initiate(args[2]))
        }
    } else if args[1] == listen_word() {
        Ok(ModeView::Listen)
    } else {
        Err(UsageErrorView::UnknownMode(args[1]))
    }
}

pub open spec fn view_of_mode(r: Result<Mode, UsageError>) -> Result<ModeView, UsageErrorView> {
    match r {
        Ok(Mode::Reset) => Ok(ModeView::Reset),
        Ok(Mode::Initiate(a)) => Ok(ModeView::Initiate(a@)),
        Ok(Mode::Listen) => Ok(ModeView::Listen),
        Err(UsageError::MissingMode) => Err(UsageErrorView::MissingMode),
        Err(UsageError::MissingAddress) => Err(UsageErrorView::MissingAddress),
        Err(UsageError::UnknownMode(m)) => Err(UsageErrorView::UnknownMode(m@)),
    }
}

fn same_chars(a: &Vec<char>, b: &Vec<char>) -> (r: bool)
    ensures
        r == (a@ == b@),
{
    if a.len() != b.len() {
        return false;
    }
    let mut i: usize = 0;
    while i < a.len()
        invariant
            a@.len() == b@.len(),
            i <= a@.len(),
            forall|j: int| 0 <= j < i ==> a@[j] == b@[j],
        decreases a@.len() - i,
    {
        if a[i] != b[i] {
            return false;
        }
        i = i + 1;
    }
    assert(a@ =~= b@);
    true
}

/// Reads the command line: `--reset`, `initiate ADDRESS` or `listen`.
pub fn parse_args(args: &Vec<String>) -> (r: Result<Mode, UsageError>)
    ensures
        view_of_mode(r) == mode_of(args@.map_values(|a: String| a@)),
{
    let ghost views = args@.map_values(|a: String| a@);
    if args.len() < 2 {
        return Err(UsageError::MissingMode);
    }
    let first = chars_of(args[1].as_str());
    let reset = vec!['-', '-', 'r', 'e', 's', 'e', 't'];
    let initiate = vec!['i', 'n', 'i', 't', 'i', 'a', 't', 'e'];
    let listen = vec!['l', 'i', 's', 't', 'e', 'n'];
    assert(reset@ =~= reset_flag());
    assert(initiate@ =~= initiate_word());
    assert(listen@ =~= listen_word());
    assert(views[1] == args@[1]@);
    if same_chars(&first, &reset) {
        Ok(Mode::Reset)
    } else if same_chars(&first, &initiate) {
        if args.len() < 3 {
            Err(UsageError::MissingAddress)
        } else {
            assert(views[2] == args@[2]@);
            Ok(Mode::Initiate(args[2].clone()))
        }
    } else if same_chars(&first, &listen) {
        Ok(Mode::Listen)
    } else {
        Err(UsageError::UnknownMode(args[1].clone()))
    }
}

/// The state of a hidden service, as far as startup cares.
#[derive(Debug, Clone, Copy, PartialEq, Eq, Structural)]
pub enum ServiceState {
    Running,
    DegradedReachable,
    Broken,
    /// Any other state: still starting, or recovering.
    Other,
}

#[derive(Debug, Clone, Copy, PartialEq, Eq, Structural)]
pub enum Readiness {
    /// Reachable: take connections.
    Ready,
    /// Broken: give up.
    Fatal,
    /// Keep waiting for the next state.
    Wait,
}

/// A listener starts once its service is running or reachable though
/// degraded; a broken service is fatal.
pub fn readiness(state: ServiceState) -> (r: Readiness)
    ensures
        (state == ServiceState::Running || state == ServiceState::DegradedReachable) <==> r
            == Readiness::Ready,
        state == ServiceState::Broken <==> r == Readiness::Fatal,
{
    match state {
        ServiceState::Running | ServiceState::DegradedReachable => Readiness::Ready,
        ServiceState::Broken => Readiness::Fatal,
        ServiceState::Other => Readiness::Wait,
    }
}

} // verus!
