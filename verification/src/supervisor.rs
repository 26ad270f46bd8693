//! The connections of a connector: opening them, and opening them anew when
//! one is lost.
//!
//! A supervisor works in rounds. In each it dials all connections and then
//! waits for them. When one is lost it pauses, gives up the others and starts
//! the next round.

use vstd::prelude::*;
use vstd::string::StringExecFns;

verus! {

/// The number of seconds between two rounds.
pub const RETRY_INTERVAL_SECS: u64 = 5;

/// What a supervisor wants done next.
#[derive(Clone, Copy, Debug, PartialEq, Eq, Structural)]
pub enum SupervisorAction {
    /// Open one more connection.
    Dial,
    /// Wait until one of the connections ends.
    Join,
    /// Wait for the next round.
    Pause,
}

/// What happens to the connections.
#[derive(Clone, Copy, Debug, PartialEq, Eq, Structural)]
pub enum SupervisorEvent {
    /// A connection was opened.
    Dialed,
    /// A connection ended and nothing was wrong.
    Finished,
    /// A connection was lost.
    Lost,
    /// There is no connection to wait for.
    NoneLeft,
    /// The pause is over.
    Paused,
}

/// Keeps count of the connections of one round.
pub struct Supervisor {
    instance: u8,
    dialed: u8,
    ended: u8,
    pausing: bool,
}

/// What a supervisor knows.
pub struct SupervisorView {
    /// How many connections there should be.
    pub instance: int,
    /// How many were opened in this round.
    pub dialed: int,
    /// How many of these have ended.
    pub ended: int,
    /// Whether one was lost.
    pub pausing: bool,
}

impl View for Supervisor {
    type V = SupervisorView;

    closed spec fn view(&self) -> SupervisorView {
        SupervisorView {
            instance: self.instance as int,
            dialed: self.dialed as int,
            ended: self.ended as int,
            pausing: self.pausing,
        }
    }
}

/// Whether the counts of a supervisor fit together.
pub open spec fn is_sound(state: SupervisorView) -> bool {
    &&& 0 <= state.ended <= state.dialed <= state.instance
    &&& (state.ended > 0 || state.pausing) ==> state.dialed == state.instance
}

/// The start of a round.
pub open spec fn fresh(instance: int) -> SupervisorView {
    SupervisorView { instance, dialed: 0, ended: 0, pausing: false }
}

/// What is to be done next.
pub open spec fn wanted(state: SupervisorView) -> SupervisorAction {
    if state.pausing {
        SupervisorAction::Pause
    } else if state.dialed < state.instance {
        SupervisorAction::Dial
    } else {
        SupervisorAction::Join
    }
}

/// Whether an event can follow what is to be done next.
pub open spec fn can_follow(state: SupervisorView, event: SupervisorEvent) -> bool {
    match event {
        SupervisorEvent::Dialed => wanted(state) == SupervisorAction::Dial,
        SupervisorEvent::Finished => wanted(state) == SupervisorAction::Join && state.ended
            < state.dialed,
        SupervisorEvent::Lost => wanted(state) == SupervisorAction::Join && state.ended
            < state.dialed,
        SupervisorEvent::NoneLeft => wanted(state) == SupervisorAction::Join && state.ended
            == state.dialed,
        SupervisorEvent::Paused => wanted(state) == SupervisorAction::Pause,
    }
}

/// The state after an event.
pub open spec fn after(state: SupervisorView, event: SupervisorEvent) -> SupervisorView {
    match event {
        SupervisorEvent::Dialed => SupervisorView { dialed: state.dialed + 1, ..state },
        SupervisorEvent::Finished => SupervisorView { ended: state.ended + 1, ..state },
        SupervisorEvent::Lost => SupervisorView { ended: state.ended + 1, pausing: true, ..state },
        SupervisorEvent::NoneLeft => fresh(state.instance),
        SupervisorEvent::Paused => fresh(state.instance),
    }
}

/// The state after some events.
pub open spec fn after_all(state: SupervisorView, events: Seq<SupervisorEvent>) -> SupervisorView
    decreases events.len(),
{
    if events.len() == 0 {
        state
    } else {
        after(after_all(state, events.drop_last()), events.last())
    }
}

/// Whether events can happen one after the other.
pub open spec fn is_course(state: SupervisorView, events: Seq<SupervisorEvent>) -> bool
    decreases events.len(),
{
    events.len() == 0 || (is_course(state, events.drop_last()) && can_follow(
        after_all(state, events.drop_last()),
        events.last(),
    ))
}

impl Supervisor {
    #[verifier::type_invariant]
    spec fn wf(self) -> bool {
        is_sound(self@)
    }

    /// A supervisor of the given number of connections, none of them open.
    pub fn new(instance: u8) -> (supervisor: Supervisor)
        ensures
            supervisor@ == fresh(instance as int),
    {
        Supervisor { instance, dialed: 0, ended: 0, pausing: false }
    }

    /// What is to be done next.
    pub fn action(&self) -> (action: SupervisorAction)
        ensures
            action == wanted(self@),
    {
        if self.pausing {
            SupervisorAction::Pause
        } else if self.dialed < self.instance {
            SupervisorAction::Dial
        } else {
            SupervisorAction::Join
        }
    }

    /// Takes what happened.
    pub fn on_event(&mut self, event: SupervisorEvent)
        requires
            can_follow(old(self)@, event),
        ensures
            final(self)@ == after(old(self)@, event),
            is_sound(final(self)@),
    {
        proof {
            use_type_invariant(&*self);
        }
        match event {
            SupervisorEvent::Dialed => {
                self.dialed = self.dialed + 1;
            },
            SupervisorEvent::Finished => {
                self.ended = self.ended + 1;
            },
            SupervisorEvent::Lost => {
                self.pausing = true;
                self.ended = self.ended + 1;
            },
            SupervisorEvent::NoneLeft => {
                *self = Supervisor::new(self.instance);
            },
            SupervisorEvent::Paused => {
                *self = Supervisor::new(self.instance);
            },
        }
    }
}

/// In every state that a supervisor comes to, the counts fit together: never
/// are more connections opened than there should be, and none is waited for or
/// given up before all are open.
pub proof fn law_counts_fit(instance: int, events: Seq<SupervisorEvent>)
    requires
        instance >= 0,
        is_course(fresh(instance), events),
    ensures
        is_sound(after_all(fresh(instance), events)),
        after_all(fresh(instance), events).instance == instance,
        wanted(after_all(fresh(instance), events)) != SupervisorAction::Dial ==> after_all(
            fresh(instance),
            events,
        ).dialed == instance,
    decreases events.len(),
{
    if events.len() > 0 {
        law_counts_fit(instance, events.drop_last());
    }
}

/// A lost connection is retried: after the pause that follows a loss, the
/// supervisor opens all connections again as it did at first.
pub proof fn law_lost_connections_are_retried(state: SupervisorView)
    requires
        can_follow(state, SupervisorEvent::Lost),
    ensures
        ({
            let lost = after(state, SupervisorEvent::Lost);
            &&& wanted(lost) == SupervisorAction::Pause
            &&& can_follow(lost, SupervisorEvent::Paused)
            &&& after(lost, SupervisorEvent::Paused) == fresh(state.instance)
        }),
{
}

/// The parts of a connection that run side by side.
#[derive(Clone, Copy, Debug, PartialEq, Eq, Structural)]
pub enum ConnectionTask {
    /// Takes the messages of the gateway.
    Processor,
    /// Sends messages to the gateway.
    Writer,
    /// Asks for pings.
    Pinger,
}

/// What is reported when a part of a connection stops.
pub open spec fn stop_report(task: ConnectionTask) -> Seq<char> {
    match task {
        ConnectionTask::Processor => "Connector message processor stopped unexpectedly!"@,
        ConnectionTask::Writer => "Websocket message handler stopped unexpectedly!"@,
        ConnectionTask::Pinger => "Websocket ping handler stopped unexpectedly!"@,
    }
}

/// Reports that a part of a connection has stopped.
pub fn stop_message(task: ConnectionTask) -> (report: String)
    ensures
        report@ == stop_report(task),
{
    match task {
        ConnectionTask::Processor => "Connector message processor stopped unexpectedly!".to_string(),
        ConnectionTask::Writer => "Websocket message handler stopped unexpectedly!".to_string(),
        ConnectionTask::Pinger => "Websocket ping handler stopped unexpectedly!".to_string(),
    }
}

/// Reports that a connection could not be opened.
pub fn connect_failure(url: &str, cause: &str) -> (report: String)
    ensures
        report@ == "Failed to connect to "@ + url@ + " due to "@ + cause@,
{
    let mut report = "Failed to connect to ".to_string();
    report.append(url);
    report.append(" due to ");
    report.append(cause);
    report
}

/// A round opens all connections before it waits for one: of `instance`
/// connections one more is opened as long as fewer are open, and then the
/// supervisor waits.
pub proof fn law_round_opens_all(instance: int, k: nat)
    requires
        k <= instance,
    ensures
        ({
            let dialed = Seq::new(k, |i: int| SupervisorEvent::Dialed);
            let state = after_all(fresh(instance), dialed);
            &&& is_course(fresh(instance), dialed)
            &&& state.instance == instance && state.dialed == k && state.ended == 0
            &&& !state.pausing
            &&& wanted(state) == (if k < instance {
                SupervisorAction::Dial
            } else {
                SupervisorAction::Join
            })
            &&& k < instance ==> can_follow(state, SupervisorEvent::Dialed)
        }),
    decreases k,
{
    let dialed = Seq::new(k, |i: int| SupervisorEvent::Dialed);
    if k > 0 {
        law_round_opens_all(instance, (k - 1) as nat);
        assert(dialed.drop_last() =~= Seq::new((k - 1) as nat, |i: int| SupervisorEvent::Dialed));
        assert(dialed.last() == SupervisorEvent::Dialed);
    }
}

/// A round in which no connection is lost is waited for to its end: as long as
/// fewer connections have ended than were opened the supervisor waits for the
/// next, and when all have ended it starts anew at once.
pub proof fn law_round_is_waited_for(instance: int, ended: int)
    requires
        0 <= ended <= instance,
    ensures
        ({
            let state = SupervisorView { instance, dialed: instance, ended, pausing: false };
            &&& wanted(state) == SupervisorAction::Join
            &&& can_follow(state, SupervisorEvent::Finished) <==> ended < instance
            &&& can_follow(state, SupervisorEvent::Lost) <==> ended < instance
            &&& can_follow(state, SupervisorEvent::NoneLeft) <==> ended == instance
            &&& {
                let next = after(state, SupervisorEvent::Finished);
                &&& next.instance == instance && next.dialed == instance
                &&& next.ended == ended + 1 && !next.pausing
            }
            &&& {
                let next = after(state, SupervisorEvent::NoneLeft);
                &&& next.instance == instance && next.dialed == 0
                &&& next.ended == 0 && !next.pausing
            }
            &&& {
                let next = after(after(state, SupervisorEvent::Lost), SupervisorEvent::Paused);
                &&& next.instance == instance && next.dialed == 0
                &&& next.ended == 0 && !next.pausing
            }
        }),
{
}

/// Each part of a connection that stops is reported in its own words.
pub proof fn law_reports_tell_parts_apart(a: ConnectionTask, b: ConnectionTask)
    requires
        stop_report(a) == stop_report(b),
    ensures
        a == b,
{
    reveal_strlit("Connector message processor stopped unexpectedly!");
    reveal_strlit("Websocket message handler stopped unexpectedly!");
    reveal_strlit("Websocket ping handler stopped unexpectedly!");
    assert(stop_report(ConnectionTask::Processor).len() == 49);
    assert(stop_report(ConnectionTask::Writer).len() == 47);
    assert(stop_report(ConnectionTask::Pinger).len() == 44);
}

} // verus!
