use vstd::prelude::*;

use crate::text::{chars_equal, chars_of, parse_port_number, port_number_spec};

verus! {

// ---------------------------------------------------------------------
// Rounds and repetitions
// ---------------------------------------------------------------------

/// How many rounds are left to play. The count is taken from the patch when
/// the first round starts (`rep_assigned`), and each finished round takes one
/// off it unless the patch loops forever; playing stops when it is 0.
#[derive(Clone, Copy, Debug, PartialEq, Eq, Structural)]
pub struct Repetition {
    pub iter: u64,
    pub rep_assigned: bool,
}

/// The state before the first round.
pub open spec fn initial_repetition() -> Repetition {
    Repetition { iter: 1, rep_assigned: false }
}

/// A round may start: the count of the first round, `iter + repeat - 1`,
/// fits, and `repeat` is at least 1.
pub open spec fn can_start_round(s: Repetition, repeat: u64) -> bool {
    s.rep_assigned || (1 <= repeat && s.iter + repeat - 1 <= u64::MAX)
}

/// The state when a round starts with the patch's `repeat`: the first round
/// sets the count to `iter + repeat - 1`; later rounds leave it.
pub open spec fn start_round_spec(s: Repetition, repeat: u64) -> Repetition {
    if s.rep_assigned {
        s
    } else {
        Repetition { iter: (s.iter + repeat - 1) as u64, rep_assigned: true }
    }
}

/// A round may end: its count is not 0, unless the patch loops forever.
pub open spec fn can_end_round(s: Repetition, infinite: bool) -> bool {
    infinite || s.iter >= 1
}

/// The state when a round ends: one round fewer, unless the patch loops
/// forever.
pub open spec fn end_round_spec(s: Repetition, infinite: bool) -> Repetition {
    if infinite {
        s
    } else {
        Repetition { iter: (s.iter - 1) as u64, rep_assigned: s.rep_assigned }
    }
}

/// Another round is played.
pub open spec fn keeps_playing(s: Repetition) -> bool {
    s.iter != 0
}

/// The state after `k` rounds that all read `repeat` and `infinite` from
/// the patch.
pub open spec fn after_rounds(s: Repetition, repeat: u64, infinite: bool, k: nat) -> Repetition
    decreases k,
{
    if k == 0 {
        s
    } else {
        end_round_spec(start_round_spec(after_rounds(s, repeat, infinite, (k - 1) as nat), repeat), infinite)
    }
}

impl Repetition {
    /// The state before the first round.
    pub fn new() -> (r: Repetition)
        ensures
            r == initial_repetition(),
    {
        Repetition { iter: 1, rep_assigned: false }
    }

    /// Whether another round is played.
    pub fn keeps_playing(&self) -> (r: bool)
        ensures
            r == keeps_playing(*self),
    {
        self.iter != 0
    }

    /// Starts a round of a patch whose `repeat` is given.
    pub fn start_round(&mut self, repeat: u64)
        requires
            can_start_round(*old(self), repeat),
        ensures
            *final(self) == start_round_spec(*old(self), repeat),
    {
        if !self.rep_assigned {
            self.iter = self.iter + (repeat - 1);
            self.rep_assigned = true;
        }
    }

    /// Ends a round of a patch that loops forever or not.
    pub fn end_round(&mut self, infinite: bool)
        requires
            can_end_round(*old(self), infinite),
        ensures
            *final(self) == end_round_spec(*old(self), infinite),
    {
        if !infinite {
            self.iter = self.iter - 1;
        }
    }
}

/// A patch that does not loop forever and asks for `repeat` rounds (at least
/// 1) is played exactly `repeat` times: after `k` rounds, with `k` from 1 to
/// `repeat`, `repeat - k` are left, so playing goes on after each of the first
/// `repeat - 1` rounds and stops after round `repeat`.
pub proof fn lemma_rounds_played(repeat: u64, k: nat)
    requires
        1 <= repeat,
        1 <= k <= repeat,
    ensures
        after_rounds(initial_repetition(), repeat, false, k).iter == repeat - k,
        after_rounds(initial_repetition(), repeat, false, k).rep_assigned,
        keeps_playing(after_rounds(initial_repetition(), repeat, false, k)) <==> k < repeat,
    decreases k,
{
    assert(after_rounds(initial_repetition(), repeat, false, 0) == initial_repetition());
    if k > 1 {
        lemma_rounds_played(repeat, (k - 1) as nat);
    }
}

/// A patch that loops forever, whatever its `repeat` (at least 1), keeps
/// its count at `repeat` after every round and is never done.
pub proof fn lemma_endless_rounds(repeat: u64, k: nat)
    requires
        1 <= repeat,
        1 <= k,
    ensures
        after_rounds(initial_repetition(), repeat, true, k).iter == repeat,
        keeps_playing(after_rounds(initial_repetition(), repeat, true, k)),
    decreases k,
{
    assert(after_rounds(initial_repetition(), repeat, true, 0) == initial_repetition());
    if k > 1 {
        lemma_endless_rounds(repeat, (k - 1) as nat);
    }
}

/// Every round that such a patch plays can start and end: before each of
/// its first `repeat` rounds (all of them, where it loops forever) the
/// `requires` of `start_round` and `end_round` hold.
pub proof fn lemma_rounds_can_run(repeat: u64, infinite: bool, k: nat)
    requires
        1 <= repeat,
        infinite || k < repeat,
    ensures
        can_start_round(after_rounds(initial_repetition(), repeat, infinite, k), repeat),
        can_end_round(
            start_round_spec(after_rounds(initial_repetition(), repeat, infinite, k), repeat),
            infinite,
        ),
{
    if k >= 1 {
        if infinite {
            lemma_endless_rounds(repeat, k);
        } else {
            lemma_rounds_played(repeat, k);
        }
    }
}

// ---------------------------------------------------------------------
// Output ports
// ---------------------------------------------------------------------

/// How the output port is chosen.
#[derive(Clone, Copy, Debug, PartialEq, Eq, Structural)]
pub enum PortChoice {
    /// There is no output port.
    NoPort,
    /// The port with this index.
    Port(usize),
    /// The user is asked to type a port number.
    Ask,
}

/// Why a typed port number is refused.
#[derive(Clone, Copy, Debug, PartialEq, Eq, Structural)]
pub enum PortError {
    /// The line is not a decimal number.
    NotANumber,
    /// There is no port with that number.
    InvalidPort,
}

/// The command-line value `ask`, which leaves the port to the user.
pub open spec fn ask_text() -> Seq<char> {
    seq!['a', 's', 'k']
}

/// With `count` ports and the command-line value `port_arg`: no port where
/// there is none, the only port where there is one, else the port that
/// `port_arg` names, or a question to the user where it is `ask`.
pub open spec fn choose_port_spec(count: usize, port_arg: Seq<char>) -> PortChoice {
    if count == 0 {
        PortChoice::NoPort
    } else if count == 1 {
        PortChoice::Port(0)
    } else if port_arg == ask_text() {
        PortChoice::Ask
    } else {
        PortChoice::Port(port_number_spec(port_arg).unwrap())
    }
}

/// The command-line value names a port that exists, where it is used.
pub open spec fn port_argument_usable(count: usize, port_arg: Seq<char>) -> bool {
    count > 1 && port_arg != ask_text() ==> (port_number_spec(port_arg) matches Some(i) && i
        < count)
}

/// Whether the command-line value names a port that exists, where it is used.
pub fn port_argument_is_usable(count: usize, port_arg: &str) -> (r: bool)
    ensures
        r == port_argument_usable(count, port_arg@),
{
    if count <= 1 || is_ask(port_arg) {
        return true;
    }
    match parse_port_number(port_arg) {
        Some(i) => i < count,
        None => false,
    }
}

fn is_ask(s: &str) -> (r: bool)
    ensures
        r == (s@ == ask_text()),
{
    let chars: Vec<char> = chars_of(s);
    let ask: Vec<char> = vec!['a', 's', 'k'];
    assert(ask@ =~= ask_text());
    chars_equal(chars.as_slice(), ask.as_slice())
}

/// Chooses the output port among `count` ports.
pub fn choose_port(count: usize, port_arg: &str) -> (r: PortChoice)
    requires
        port_argument_usable(count, port_arg@),
    ensures
        r == choose_port_spec(count, port_arg@),
{
    if count == 0 {
        PortChoice::NoPort
    } else if count == 1 {
        PortChoice::Port(0)
    } else if is_ask(port_arg) {
        PortChoice::Ask
    } else {
        match parse_port_number(port_arg) {
            Some(i) => PortChoice::Port(i),
            None => PortChoice::NoPort,
        }
    }
}

/// The port that a line typed by the user names among `count` ports: the
/// number it writes, once trimmed, if there is such a port.
pub open spec fn typed_port_spec(count: usize, line: Seq<char>) -> Result<usize, PortError> {
    match port_number_spec(line) {
        None => Err(PortError::NotANumber),
        Some(i) => if i < count {
            Ok(i)
        } else {
            Err(PortError::InvalidPort)
        },
    }
}

/// The port that a line typed by the user names among `count` ports.
pub fn typed_port(count: usize, line: &str) -> (r: Result<usize, PortError>)
    ensures
        r == typed_port_spec(count, line@),
{
    match parse_port_number(line) {
        None => Err(PortError::NotANumber),
        Some(i) => if i < count {
            Ok(i)
        } else {
            Err(PortError::InvalidPort)
        },
    }
}

/// A typed line names a port exactly when it writes a number below the
/// count of ports: every port from 0 to `count - 1` can be chosen; a number
/// at or past the count is refused as an invalid port, and a line that
/// writes no number as not a number.
pub proof fn lemma_typed_port_choices(count: usize, line: Seq<char>)
    ensures
        port_number_spec(line) is None ==> typed_port_spec(count, line) == Err::<usize, PortError>(
            PortError::NotANumber,
        ),
        port_number_spec(line) matches Some(i) ==> ((typed_port_spec(count, line) == Ok::<
            usize,
            PortError,
        >(i)) <==> i < count),
        port_number_spec(line) matches Some(i) && i >= count ==> typed_port_spec(count, line)
            == Err::<usize, PortError>(PortError::InvalidPort),
        typed_port_spec(count, line) matches Ok(i) ==> i < count && port_number_spec(line) == Some(
            i,
        ),
{
}

/// The port given on the command line, where there are several ports and
/// it is not `ask`, is the one it names, whichever of them it is.
pub proof fn lemma_port_argument_choice(count: usize, port_arg: Seq<char>)
    requires
        count > 1,
        port_arg != ask_text(),
        port_argument_usable(count, port_arg),
    ensures
        port_number_spec(port_arg) matches Some(i) && i < count && choose_port_spec(count, port_arg)
            == PortChoice::Port(i),
{
}

} // verus!
