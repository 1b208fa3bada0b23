//! The knock sequencer: which knock or pause comes next, and what the result
//! of an attempt means for the rest of the sequence.
//!
//! The sequencer touches no socket and no clock. It says what is to be done,
//! the caller does it and reports back, and the sequencer moves on.

use vstd::prelude::*;
use crate::args::Args;
use crate::port::Port;
use crate::proto::Proto;
use crate::text::{decimal_digits, write_decimal};

verus! {

/// What went wrong in an attempt to knock.
#[derive(Clone, Copy, Debug, PartialEq, Eq, Structural)]
pub enum Fault {
    /// The connection was not made.
    Connect,
    /// No local socket could be bound.
    Bind,
    /// The datagram was not sent.
    Send,
}

impl Fault {
    /// The text of this fault.
    pub open spec fn spec_message(&self) -> Seq<char> {
        match self {
            Fault::Connect => "Couldn't connect to target."@,
            Fault::Bind => "Couldn't bind to address"@,
            Fault::Send => "Couldn't send empty packet to target."@,
        }
    }

    /// Says in words what went wrong.
    pub fn message(&self) -> (text: &'static str)
        ensures
            text@ == self.spec_message(),
    {
        match self {
            Fault::Connect => "Couldn't connect to target.",
            Fault::Bind => "Couldn't bind to address",
            Fault::Send => "Couldn't send empty packet to target.",
        }
    }
}

/// What the caller reports back.
#[derive(Clone, Copy, Debug, PartialEq, Eq)]
pub enum Event {
    /// The knock that was asked for went out.
    Knocked,
    /// The knock that was asked for failed.
    Failed(Fault),
    /// The pause that was asked for is over.
    Slept,
}

/// Where a sequence stands.
#[derive(Clone, Copy, Debug, PartialEq, Eq)]
pub enum Phase {
    /// The knock on the port at the current position is due.
    Knocking,
    /// That knock was attempted and the pause after it is due.
    Sleeping,
    /// Every port was knocked and every pause kept.
    Finished,
    /// The knock at the current position failed for good.
    Aborted(Fault),
}

/// What the caller is asked to do, as plain values.
pub enum Deed {
    /// Print the announcement, then try to connect to the target over TCP.
    Connect { announcement: Seq<char>, target: Seq<char> },
    /// Print the announcement, bind a UDP socket to the local address and
    /// send the payload to the target.
    Send { announcement: Seq<char>, local: Seq<char>, target: Seq<char>, payload: Seq<u8> },
    /// Block for this many milliseconds.
    Sleep { millis: u64 },
    /// The sequence is complete.
    Finish,
    /// The sequence was given up after this fault.
    Abort { fault: Fault },
}

/// What the caller is asked to do.
#[derive(Debug, PartialEq, Eq)]
pub enum Action {
    /// Print the announcement, then try to connect to the target over TCP.
    Connect { announcement: String, target: String },
    /// Print the announcement, bind a UDP socket to the local address and
    /// send the payload to the target.
    Send { announcement: String, local: String, target: String, payload: Vec<u8> },
    /// Block for this many milliseconds.
    Sleep { millis: u64 },
    /// The sequence is complete.
    Finish,
    /// The sequence was given up after this fault.
    Abort { fault: Fault },
}

impl View for Action {
    type V = Deed;

    open spec fn view(&self) -> Deed {
        match self {
            Action::Connect { announcement, target } => Deed::Connect {
                announcement: announcement@,
                target: target@,
            },
            Action::Send { announcement, local, target, payload } => Deed::Send {
                announcement: announcement@,
                local: local@,
                target: target@,
                payload: payload@,
            },
            Action::Sleep { millis } => Deed::Sleep { millis: *millis },
            Action::Finish => Deed::Finish,
            Action::Abort { fault } => Deed::Abort { fault: *fault },
        }
    }
}

/// The address that a knock on `port` goes to: the remote host, a colon and
/// the port number.
pub open spec fn target_of(remote: Seq<char>, port: Port) -> Seq<char> {
    remote + ":"@ + decimal_digits(port.number() as nat)
}

/// The line that announces a knock on `port`.
pub open spec fn announcement_of(port: Port) -> Seq<char> {
    "Knock "@ + port.spec_to_string() + "..."@
}

/// The local address of a UDP knock: every interface, and a port that the
/// system picks.
pub open spec fn local_address() -> Seq<char> {
    "[::]:0"@
}

/// The datagram of a UDP knock: two zero bytes.
pub open spec fn payload() -> Seq<u8> {
    seq![0u8, 0u8]
}

/// A knock sequence under way, as plain values.
pub struct State {
    /// The host that is knocked on.
    pub remote: Seq<char>,
    /// The ports of the sequence, in their order.
    pub ports: Seq<Port>,
    /// The pause after each knock, in milliseconds.
    pub delay: u64,
    /// How many ports are done with: knocked, and the pause after them kept.
    pub position: int,
    /// What is due at that position.
    pub phase: Phase,
}

impl State {
    /// Whether position and phase fit the ports: a knock or a pause is due, or
    /// a knock failed, only at a port of the sequence, and the sequence is
    /// finished only behind its last port.
    pub open spec fn wf(self) -> bool {
        &&& 0 <= self.position <= self.ports.len()
        &&& self.phase is Finished <==> self.position == self.ports.len()
    }

    /// The state in which a sequence starts.
    pub open spec fn initial(remote: Seq<char>, ports: Seq<Port>, delay: u64) -> State {
        State {
            remote,
            ports,
            delay,
            position: 0,
            phase: if ports.len() == 0 {
                Phase::Finished
            } else {
                Phase::Knocking
            },
        }
    }

    /// Whether the sequence has come to its end, one way or the other.
    pub open spec fn ended(self) -> bool {
        self.phase is Finished || self.phase is Aborted
    }

    /// The port at the current position.
    pub open spec fn current(self) -> Port {
        self.ports[self.position]
    }

    /// Whether a failed attempt on `port` ends the sequence. A failed TCP
    /// connection does not: nobody is expected to answer. A UDP knock that
    /// could not be sent does.
    pub open spec fn fatal(port: Port) -> bool {
        port.proto() == Proto::UDP
    }

    /// The state behind a pause: the next port is due, or none is left.
    pub open spec fn moved_on(self) -> State {
        State {
            position: self.position + 1,
            phase: if self.position + 1 < self.ports.len() {
                Phase::Knocking
            } else {
                Phase::Finished
            },
            ..self
        }
    }

    /// The state after an event. An event that the phase does not wait for
    /// changes nothing.
    pub open spec fn after(self, event: Event) -> State {
        match (self.phase, event) {
            (Phase::Knocking, Event::Knocked) => State { phase: Phase::Sleeping, ..self },
            (Phase::Knocking, Event::Failed(fault)) => if State::fatal(self.current()) {
                State { phase: Phase::Aborted(fault), ..self }
            } else {
                State { phase: Phase::Sleeping, ..self }
            },
            (Phase::Sleeping, Event::Slept) => self.moved_on(),
            _ => self,
        }
    }

    /// What is to be done in this state.
    pub open spec fn pending(self) -> Deed {
        match self.phase {
            Phase::Knocking => match self.current().proto() {
                Proto::TCP => Deed::Connect {
                    announcement: announcement_of(self.current()),
                    target: target_of(self.remote, self.current()),
                },
                Proto::UDP => Deed::Send {
                    announcement: announcement_of(self.current()),
                    local: local_address(),
                    target: target_of(self.remote, self.current()),
                    payload: payload(),
                },
            },
            Phase::Sleeping => Deed::Sleep { millis: self.delay },
            Phase::Finished => Deed::Finish,
            Phase::Aborted(fault) => Deed::Abort { fault },
        }
    }

    /// How many knocks were attempted before this state was reached: one for
    /// each port that is done with, and one more where the knock at the
    /// current position is behind.
    pub open spec fn attempts(self) -> int {
        match self.phase {
            Phase::Knocking | Phase::Finished => self.position,
            Phase::Sleeping | Phase::Aborted(_) => self.position + 1,
        }
    }

    /// How many reports the sequence can still take before it has ended: two
    /// for each port that is not done with, a knock and a pause, less the
    /// knock where it is behind.
    pub open spec fn steps_left(self) -> int {
        match self.phase {
            Phase::Knocking => 2 * (self.ports.len() - self.position),
            Phase::Sleeping => 2 * (self.ports.len() - self.position) - 1,
            Phase::Finished | Phase::Aborted(_) => 0,
        }
    }

    /// Whether `event` reports on what is asked for in this state: on the
    /// knock where a knock is due, on the pause where the pause is due. Where
    /// the sequence has ended nothing is asked for.
    pub open spec fn answers(self, event: Event) -> bool {
        match self.phase {
            Phase::Knocking => event is Knocked || event is Failed,
            Phase::Sleeping => event is Slept,
            Phase::Finished | Phase::Aborted(_) => false,
        }
    }

    /// Whether each event of a run reports on what was asked for when it
    /// came.
    pub open spec fn answered(self, events: Seq<Event>) -> bool
        decreases events.len(),
    {
        events.len() == 0 || (self.answers(events[0]) && self.after(events[0]).answered(
            events.drop_first(),
        ))
    }

    /// The state after a run of events.
    pub open spec fn run(self, events: Seq<Event>) -> State
        decreases events.len(),
    {
        if events.len() == 0 {
            self
        } else {
            self.after(events[0]).run(events.drop_first())
        }
    }

    /// The ports on which a knock was attempted during a run of events, in
    /// the order of the attempts.
    pub open spec fn knocked(self, events: Seq<Event>) -> Seq<Port>
        decreases events.len(),
    {
        if events.len() == 0 {
            Seq::empty()
        } else {
            let rest = self.after(events[0]).knocked(events.drop_first());
            if self.phase is Knocking && !(events[0] is Slept) {
                seq![self.current()] + rest
            } else {
                rest
            }
        }
    }

    /// The time spent in pauses during a run of events, in milliseconds.
    pub open spec fn slept(self, events: Seq<Event>) -> nat
        decreases events.len(),
    {
        if events.len() == 0 {
            0
        } else {
            let rest = self.after(events[0]).slept(events.drop_first());
            if self.phase is Sleeping && events[0] is Slept {
                self.delay as nat + rest
            } else {
                rest
            }
        }
    }
}

/// How far a sequence has come: how many ports are done with, and what is due
/// at the next.
#[derive(Clone, Copy)]
struct Cursor {
    position: usize,
    phase: Phase,
}

/// A knock sequence under way: the remote host, the ports in their order, the
/// pause between knocks, and how far the sequence has come.
pub struct Sequencer {
    remote: String,
    ports: Vec<Port>,
    delay: u64,
    cursor: Cursor,
}

impl View for Sequencer {
    type V = State;

    closed spec fn view(&self) -> State {
        State {
            remote: self.remote@,
            ports: self.ports@,
            delay: self.delay,
            position: self.cursor.position as int,
            phase: self.cursor.phase,
        }
    }
}

impl Sequencer {
    #[verifier::type_invariant]
    spec fn fits(self) -> bool {
        self@.wf()
    }

    /// A sequencer at the start of the sequence that the arguments describe.
    pub fn new(args: Args) -> (sequencer: Sequencer)
        ensures
            sequencer@ == State::initial(args.remote@, args.ports@, args.delay),
            sequencer@.wf(),
    {
        let Args { remote, ports, delay } = args;
        let phase = if ports.len() == 0 {
            Phase::Finished
        } else {
            Phase::Knocking
        };
        Sequencer { remote, ports, delay, cursor: Cursor { position: 0, phase } }
    }

    /// The line that opens a run: which host is knocked on.
    pub fn greeting(&self) -> (line: String)
        ensures
            line@ == "Attempting to knock on "@ + self@.remote + "."@,
    {
        let mut line = String::from_str("Attempting to knock on ");
        line.append(self.remote.as_str());
        line.append(".");
        line
    }

    /// What is to be done now.
    pub fn pending(&self) -> (action: Action)
        ensures
            self@.wf(),
            action@ == self@.pending(),
    {
        proof {
            use_type_invariant(self);
        }
        match self.cursor.phase {
            Phase::Knocking => {
                let port = self.ports[self.cursor.position];
                let mut announcement = String::from_str("Knock ");
                announcement.append(port.to_string().as_str());
                announcement.append("...");
                let mut target = self.remote.clone();
                target.append(":");
                target.append(write_decimal(port.number()).as_str());
                match port.proto() {
                    Proto::TCP => Action::Connect { announcement, target },
                    Proto::UDP => {
                        let mut datagram: Vec<u8> = Vec::new();
                        datagram.push(0);
                        datagram.push(0);
                        assert(datagram@ =~= payload());
                        Action::Send {
                            announcement,
                            local: String::from_str("[::]:0"),
                            target,
                            payload: datagram,
                        }
                    },
                }
            },
            Phase::Sleeping => Action::Sleep { millis: self.delay },
            Phase::Finished => Action::Finish,
            Phase::Aborted(fault) => Action::Abort { fault },
        }
    }

    /// Takes in what the caller reports and says what is to be done next.
    ///
    /// After a knock, failed or not, the pause is due; but a failed UDP knock
    /// ends the sequence. After the pause the next port is due, or the
    /// sequence is finished. A report that was not waited for changes nothing.
    pub fn step(&mut self, event: Event) -> (action: Action)
        ensures
            final(self)@ == old(self)@.after(event),
            final(self)@.wf(),
            action@ == final(self)@.pending(),
    {
        proof {
            use_type_invariant(&*self);
        }
        let Cursor { position, phase } = self.cursor;
        let count: usize = self.ports.len();
        match (phase, event) {
            (Phase::Knocking, Event::Knocked) => {
                self.cursor = Cursor { position, phase: Phase::Sleeping };
            },
            (Phase::Knocking, Event::Failed(fault)) => {
                match self.ports[position].proto() {
                    Proto::UDP => {
                        self.cursor = Cursor { position, phase: Phase::Aborted(fault) };
                    },
                    Proto::TCP => {
                        self.cursor = Cursor { position, phase: Phase::Sleeping };
                    },
                }
            },
            (Phase::Sleeping, Event::Slept) => {
                let next: usize = position + 1;
                let phase = if next < count {
                    Phase::Knocking
                } else {
                    Phase::Finished
                };
                self.cursor = Cursor { position: next, phase };
            },
            _ => {},
        }
        self.pending()
    }
}

/// An event leaves the host, the ports and the delay as they are, and a state
/// that fits its ports still fits them afterwards.
pub proof fn lemma_after_keeps_wf(state: State, event: Event)
    requires
        state.wf(),
    ensures
        state.after(event).wf(),
        state.after(event).remote == state.remote,
        state.after(event).ports == state.ports,
        state.after(event).delay == state.delay,
{
}

/// A run of events leaves the host, the ports and the delay as they are, and
/// a state that fits its ports still fits them afterwards.
pub proof fn lemma_run_keeps_wf(state: State, events: Seq<Event>)
    requires
        state.wf(),
    ensures
        state.run(events).wf(),
        state.run(events).remote == state.remote,
        state.run(events).ports == state.ports,
        state.run(events).delay == state.delay,
    decreases events.len(),
{
    if events.len() > 0 {
        lemma_after_keeps_wf(state, events[0]);
        lemma_run_keeps_wf(state.after(events[0]), events.drop_first());
    }
}

/// A run in two parts: the second part starts where the first ends, and the
/// knocks and the pauses of the two parts add up.
pub proof fn lemma_run_in_parts(state: State, first: Seq<Event>, second: Seq<Event>)
    ensures
        state.run(first + second) == state.run(first).run(second),
        state.knocked(first + second) == state.knocked(first) + state.run(first).knocked(second),
        state.slept(first + second) == state.slept(first) + state.run(first).slept(second),
    decreases first.len(),
{
    if first.len() == 0 {
        assert(first + second =~= second);
        assert(state.knocked(first) + state.run(first).knocked(second) =~= state.knocked(second));
    } else {
        let all = first + second;
        assert(all[0] == first[0]);
        assert(all.drop_first() =~= first.drop_first() + second);
        let next = state.after(first[0]);
        lemma_run_in_parts(next, first.drop_first(), second);
        assert(state.knocked(all) =~= state.knocked(first) + state.run(first).knocked(second));
    }
}

/// Once a sequence is finished or given up, nothing moves it: whatever is
/// reported, the state stays, no port is knocked and no pause is kept.
pub proof fn lemma_end_is_final(state: State, events: Seq<Event>)
    requires
        state.ended(),
    ensures
        state.run(events) == state,
        state.knocked(events) == Seq::<Port>::empty(),
        state.slept(events) == 0,
    decreases events.len(),
{
    if events.len() > 0 {
        lemma_end_is_final(state, events.drop_first());
    }
}

/// The ports are knocked in their order, each as often as it stands in the
/// sequence: the knocks attempted during a run are the ports from the first
/// that was not yet attempted up to the last that was.
pub proof fn lemma_knocks_in_order(state: State, events: Seq<Event>)
    requires
        state.wf(),
    ensures
        0 <= state.attempts() <= state.run(events).attempts() <= state.ports.len(),
        state.knocked(events) == state.ports.subrange(
            state.attempts(),
            state.run(events).attempts(),
        ),
    decreases events.len(),
{
    let end = state.run(events);
    if events.len() == 0 {
        assert(state.knocked(events) =~= state.ports.subrange(state.attempts(), end.attempts()));
    } else {
        let next = state.after(events[0]);
        lemma_after_keeps_wf(state, events[0]);
        lemma_knocks_in_order(next, events.drop_first());
        assert(state.knocked(events) =~= state.ports.subrange(state.attempts(), end.attempts()));
    }
}

/// The time spent in pauses during a run is the delay, once for each port
/// that the run is done with.
pub proof fn lemma_sleep_per_port(state: State, events: Seq<Event>)
    requires
        state.wf(),
    ensures
        state.position <= state.run(events).position,
        state.slept(events) == (state.run(events).position - state.position) * state.delay,
    decreases events.len(),
{
    if events.len() > 0 {
        let next = state.after(events[0]);
        let end = state.run(events);
        let delay = state.delay as int;
        lemma_after_keeps_wf(state, events[0]);
        lemma_sleep_per_port(next, events.drop_first());
        assert(end == next.run(events.drop_first()));
        assert(next.delay as int == delay);
        assert((end.position - state.position) * delay == (end.position - next.position) * delay
            + (next.position - state.position) * delay) by (nonlinear_arith);
        if state.phase is Sleeping && events[0] is Slept {
            assert(next.position - state.position == 1);
            assert((next.position - state.position) * delay == delay) by (nonlinear_arith)
                requires
                    next.position - state.position == 1,
            ;
        } else {
            assert(next.position == state.position);
            assert((next.position - state.position) * delay == 0) by (nonlinear_arith)
                requires
                    next.position == state.position,
            ;
        }
    }
}

/// A sequence of `n` ports that runs to its finish knocks every port, in the
/// order of the sequence, and sleeps `n` times the delay.
pub proof fn lemma_finished_run(
    remote: Seq<char>,
    ports: Seq<Port>,
    delay: u64,
    events: Seq<Event>,
)
    requires
        State::initial(remote, ports, delay).run(events).phase is Finished,
    ensures
        State::initial(remote, ports, delay).knocked(events) == ports,
        State::initial(remote, ports, delay).slept(events) == ports.len() * delay,
{
    let start = State::initial(remote, ports, delay);
    lemma_run_keeps_wf(start, events);
    lemma_knocks_in_order(start, events);
    lemma_sleep_per_port(start, events);
    assert(ports.subrange(0, ports.len() as int) =~= ports);
}

/// A failed TCP knock does not end the sequence: the pause after it is due
/// like after any other knock.
pub proof fn lemma_tcp_failure_goes_on(state: State, fault: Fault)
    requires
        state.wf(),
        state.phase is Knocking,
        state.current().proto() == Proto::TCP,
    ensures
        state.after(Event::Failed(fault)) == state.after(Event::Knocked),
        state.after(Event::Failed(fault)).phase is Sleeping,
{
}

/// A failed UDP knock ends the sequence with its fault.
pub proof fn lemma_udp_failure_aborts(state: State, fault: Fault)
    requires
        state.wf(),
        state.phase is Knocking,
        state.current().proto() == Proto::UDP,
    ensures
        state.after(Event::Failed(fault)).phase == Phase::Aborted(fault),
        state.after(Event::Failed(fault)).pending() == (Deed::Abort { fault }),
{
}

/// A sequence is given up only at a UDP port: where a run from the start ends
/// in a fault, the port at which it stands is knocked on UDP.
pub proof fn lemma_abort_only_on_udp(state: State, events: Seq<Event>)
    requires
        state.wf(),
        !(state.phase is Aborted),
        state.run(events).phase is Aborted,
    ensures
        0 <= state.run(events).position < state.ports.len(),
        state.ports[state.run(events).position].proto() == Proto::UDP,
    decreases events.len(),
{
    if events.len() > 0 {
        let next = state.after(events[0]);
        lemma_after_keeps_wf(state, events[0]);
        if next.phase is Aborted {
            lemma_end_is_final(next, events.drop_first());
        } else {
            lemma_abort_only_on_udp(next, events.drop_first());
        }
    }
}

/// After a run that was given up, the ports behind the failing one are never
/// knocked: the knocks of the run, and of whatever is reported after it, are
/// the ports up to the failing one.
pub proof fn lemma_abort_skips_the_rest(
    remote: Seq<char>,
    ports: Seq<Port>,
    delay: u64,
    events: Seq<Event>,
    later: Seq<Event>,
)
    requires
        State::initial(remote, ports, delay).run(events).phase is Aborted,
    ensures
        ({
            let start = State::initial(remote, ports, delay);
            let failed_at = start.run(events).position;
            &&& 0 <= failed_at < ports.len()
            &&& start.run(events + later) == start.run(events)
            &&& start.knocked(events + later) == ports.take(failed_at + 1)
            &&& start.slept(events + later) == failed_at * delay
        }),
{
    let start = State::initial(remote, ports, delay);
    let end = start.run(events);
    lemma_run_keeps_wf(start, events);
    lemma_run_in_parts(start, events, later);
    lemma_end_is_final(end, later);
    lemma_knocks_in_order(start, events);
    lemma_sleep_per_port(start, events);
    assert(start.knocked(events) + Seq::<Port>::empty() =~= start.knocked(events));
    assert(ports.subrange(0, end.position + 1) =~= ports.take(end.position + 1));
}


/// A run in which every report answers what was asked for comes to its end:
/// each report uses up at least one of the steps that are left, so the run is
/// no longer than those, and where it is as long the sequence has ended.
pub proof fn lemma_answered_run_ends(state: State, events: Seq<Event>)
    requires
        state.wf(),
        state.answered(events),
    ensures
        state.ended() <==> state.steps_left() == 0,
        0 <= state.run(events).steps_left(),
        state.run(events).steps_left() + events.len() <= state.steps_left(),
        events.len() <= state.steps_left(),
        events.len() == state.steps_left() ==> state.run(events).ended(),
    decreases events.len(),
{
    if events.len() > 0 {
        lemma_after_keeps_wf(state, events[0]);
        lemma_answered_run_ends(state.after(events[0]), events.drop_first());
    }
}

/// Failed connections do not keep a sequence from its finish: a sequence of
/// `n` TCP ports, answered through all its steps, is finished whatever was
/// reported of its knocks, with every port knocked in order and `n` times the
/// delay slept.
pub proof fn lemma_tcp_run_finishes(
    remote: Seq<char>,
    ports: Seq<Port>,
    delay: u64,
    events: Seq<Event>,
)
    requires
        forall|i: int| 0 <= i < ports.len() ==> (#[trigger] ports[i]).proto() == Proto::TCP,
        State::initial(remote, ports, delay).answered(events),
        events.len() == 2 * ports.len(),
    ensures
        State::initial(remote, ports, delay).run(events).phase is Finished,
        State::initial(remote, ports, delay).knocked(events) == ports,
        State::initial(remote, ports, delay).slept(events) == ports.len() * delay,
{
    let start = State::initial(remote, ports, delay);
    lemma_answered_run_ends(start, events);
    if start.run(events).phase is Aborted {
        lemma_abort_only_on_udp(start, events);
    }
    lemma_finished_run(remote, ports, delay, events);
}

} // verus!
