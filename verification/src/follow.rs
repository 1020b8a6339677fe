//! The course of the tool that follows one channel and reports each
//! sample: which outside work is due in each phase, and how the outcome of
//! that work moves the tool on.

use vstd::prelude::*;
use vstd::string::*;
use crate::report::{decode_line, decode_notice};
use crate::text::text_view;

verus! {

/// Where the tool stands.
#[derive(Debug, Clone, Copy, PartialEq, Eq, Structural)]
pub enum Phase {
    /// Nothing has been opened yet.
    Idle,
    /// The session is open.
    SessionOpen,
    /// The subscription is declared; no sample has been received yet.
    Subscribed,
    /// At least one sample has been received, and the next is awaited.
    Receiving,
    /// Receiving has failed; subscription and session are to be given up.
    Closing,
    /// Subscription and session are given up.
    Terminated,
}

/// The outside work that is due in a phase.
#[derive(Debug, Clone, Copy, PartialEq, Eq, Structural)]
pub enum Work {
    /// Open the session.
    OpenSession,
    /// Declare the subscription on the channel.
    DeclareSubscriber,
    /// Wait for the next sample.
    Receive,
    /// Undeclare the subscription and close the session.
    TearDown,
    /// Nothing is left to do.
    Nothing,
}

/// One received sample, as far as the tool reads it: the timestamp that
/// the transport gave it, as text, and the decoded message, as text, where
/// the payload could be decoded.
#[derive(Debug)]
pub struct Sample {
    pub timestamp: String,
    pub decoded: Option<String>,
}

/// What a sample stands for.
pub struct SampleView {
    pub timestamp: Seq<char>,
    pub decoded: Option<Seq<char>>,
}

impl View for Sample {
    type V = SampleView;

    open spec fn view(&self) -> SampleView {
        SampleView { timestamp: self.timestamp@, decoded: text_view(self.decoded) }
    }
}

/// The outcome of a piece of outside work.
#[derive(Debug)]
pub enum Event {
    /// The session was opened.
    SessionOpened,
    /// The subscription was declared.
    SubscriberDeclared,
    /// A sample was received.
    Received(Sample),
    /// The receive call failed.
    ReceiveFailed,
    /// Subscription and session were given up.
    TornDown,
}

/// What an event stands for.
pub enum EventView {
    SessionOpened,
    SubscriberDeclared,
    Received(SampleView),
    ReceiveFailed,
    TornDown,
}

impl View for Event {
    type V = EventView;

    open spec fn view(&self) -> EventView {
        match self {
            Event::SessionOpened => EventView::SessionOpened,
            Event::SubscriberDeclared => EventView::SubscriberDeclared,
            Event::Received(sample) => EventView::Received(sample@),
            Event::ReceiveFailed => EventView::ReceiveFailed,
            Event::TornDown => EventView::TornDown,
        }
    }
}

/// What is printed for one sample: its timestamp, and one line that holds
/// the decoded message or tells that decoding failed.
#[derive(Debug)]
pub struct Report {
    pub timestamp: String,
    pub line: String,
}

/// What a report stands for.
pub struct ReportView {
    pub timestamp: Seq<char>,
    pub line: Seq<char>,
}

impl View for Report {
    type V = ReportView;

    open spec fn view(&self) -> ReportView {
        ReportView { timestamp: self.timestamp@, line: self.line@ }
    }
}

/// The report of a sample.
pub open spec fn report_of(sample: SampleView) -> ReportView {
    ReportView { timestamp: sample.timestamp, line: decode_line(sample.decoded) }
}

/// The work that is due in `phase`.
pub open spec fn work_in(phase: Phase) -> Work {
    match phase {
        Phase::Idle => Work::OpenSession,
        Phase::SessionOpen => Work::DeclareSubscriber,
        Phase::Subscribed => Work::Receive,
        Phase::Receiving => Work::Receive,
        Phase::Closing => Work::TearDown,
        Phase::Terminated => Work::Nothing,
    }
}

/// Whether a receive call is under way in `phase`.
pub open spec fn awaits_sample(phase: Phase) -> bool {
    phase == Phase::Subscribed || phase == Phase::Receiving
}

/// The phase that follows `phase` on `event`. An event that is not the
/// outcome of the work due in `phase` changes nothing.
pub open spec fn next_phase(phase: Phase, event: EventView) -> Phase {
    match (phase, event) {
        (Phase::Idle, EventView::SessionOpened) => Phase::SessionOpen,
        (Phase::SessionOpen, EventView::SubscriberDeclared) => Phase::Subscribed,
        (Phase::Subscribed, EventView::Received(_)) => Phase::Receiving,
        (Phase::Receiving, EventView::Received(_)) => Phase::Receiving,
        (Phase::Subscribed, EventView::ReceiveFailed) => Phase::Closing,
        (Phase::Receiving, EventView::ReceiveFailed) => Phase::Closing,
        (Phase::Closing, EventView::TornDown) => Phase::Terminated,
        _ => phase,
    }
}

/// What is to be printed on `event` in `phase`: the report of a sample
/// that was received while one was awaited, and nothing else.
pub open spec fn report_on(phase: Phase, event: EventView) -> Option<ReportView> {
    match event {
        EventView::Received(sample) => if awaits_sample(phase) {
            Some(report_of(sample))
        } else {
            None
        },
        _ => None,
    }
}

/// Whether `event` in `phase` makes the teardown due.
pub open spec fn starts_teardown(phase: Phase, event: EventView) -> bool {
    phase != Phase::Closing && next_phase(phase, event) == Phase::Closing
}

/// The phase that is reached from `phase` by `events`, one after the other.
pub open spec fn phase_after(phase: Phase, events: Seq<EventView>) -> Phase
    decreases events.len(),
{
    if events.len() == 0 {
        phase
    } else {
        next_phase(phase_after(phase, events.drop_last()), events.last())
    }
}

/// All that is printed on the way from `phase` through `events`, in order.
pub open spec fn reports_after(phase: Phase, events: Seq<EventView>) -> Seq<ReportView>
    decreases events.len(),
{
    if events.len() == 0 {
        Seq::empty()
    } else {
        let earlier = reports_after(phase, events.drop_last());
        match report_on(phase_after(phase, events.drop_last()), events.last()) {
            Some(report) => earlier.push(report),
            None => earlier,
        }
    }
}

/// How often the teardown becomes due on the way from `phase` through `events`.
pub open spec fn teardowns_after(phase: Phase, events: Seq<EventView>) -> nat
    decreases events.len(),
{
    if events.len() == 0 {
        0
    } else {
        let earlier = teardowns_after(phase, events.drop_last());
        if starts_teardown(phase_after(phase, events.drop_last()), events.last()) {
            earlier + 1
        } else {
            earlier
        }
    }
}

/// The events of receiving `samples`, one after the other.
pub open spec fn received(samples: Seq<SampleView>) -> Seq<EventView> {
    Seq::new(samples.len(), |i: int| EventView::Received(samples[i]))
}

/// The reports of `samples`, in the same order.
pub open spec fn reports_of(samples: Seq<SampleView>) -> Seq<ReportView> {
    Seq::new(samples.len(), |i: int| report_of(samples[i]))
}

/// A course can be followed in two parts: what is reached, printed and
/// torn down over `first + second` is what the two parts give in turn.
pub proof fn lemma_course_in_parts(phase: Phase, first: Seq<EventView>, second: Seq<EventView>)
    ensures
        phase_after(phase, first + second) == phase_after(phase_after(phase, first), second),
        reports_after(phase, first + second) == reports_after(phase, first) + reports_after(
            phase_after(phase, first),
            second,
        ),
        teardowns_after(phase, first + second) == teardowns_after(phase, first) + teardowns_after(
            phase_after(phase, first),
            second,
        ),
    decreases second.len(),
{
    let middle = phase_after(phase, first);
    if second.len() == 0 {
        assert(first + second =~= first);
        assert(reports_after(phase, first) + reports_after(middle, second) =~= reports_after(
            phase,
            first,
        ));
    } else {
        let shorter = second.drop_last();
        lemma_course_in_parts(phase, first, shorter);
        assert((first + second).drop_last() =~= first + shorter);
        assert((first + second).last() == second.last());
        assert(reports_after(phase, first + second) =~= reports_after(phase, first)
            + reports_after(middle, second));
    }
}

/// While samples come in, each is reported once and in the order of
/// delivery, and nothing is torn down.
pub proof fn lemma_one_report_per_sample(phase: Phase, samples: Seq<SampleView>)
    requires
        awaits_sample(phase),
    ensures
        awaits_sample(phase_after(phase, received(samples))),
        reports_after(phase, received(samples)) == reports_of(samples),
        teardowns_after(phase, received(samples)) == 0,
    decreases samples.len(),
{
    if samples.len() == 0 {
        assert(reports_after(phase, received(samples)) =~= reports_of(samples));
    } else {
        let earlier = samples.drop_last();
        lemma_one_report_per_sample(phase, earlier);
        assert(received(samples).drop_last() =~= received(earlier));
        assert(received(samples).last() == EventView::Received(samples.last()));
        assert(reports_after(phase, received(samples)) =~= reports_of(samples));
    }
}

/// Once receiving has failed, nothing more is printed and the teardown
/// does not become due again, whatever happens.
pub proof fn lemma_quiet_after_failure(phase: Phase, events: Seq<EventView>)
    requires
        phase == Phase::Closing || phase == Phase::Terminated,
    ensures
        phase_after(phase, events) == Phase::Closing || phase_after(phase, events)
            == Phase::Terminated,
        reports_after(phase, events) == Seq::<ReportView>::empty(),
        teardowns_after(phase, events) == 0,
    decreases events.len(),
{
    if events.len() > 0 {
        lemma_quiet_after_failure(phase, events.drop_last());
    }
}

/// The receive loop: when `samples` are delivered and the receive call
/// then fails, exactly the reports of `samples` are printed, in the order
/// of delivery, and the teardown becomes due exactly once, at the failure,
/// whatever `rest` comes after it.
pub proof fn lemma_receive_loop(phase: Phase, samples: Seq<SampleView>, rest: Seq<EventView>)
    requires
        awaits_sample(phase),
    ensures
        phase_after(phase, received(samples).push(EventView::ReceiveFailed)) == Phase::Closing,
        reports_after(phase, received(samples).push(EventView::ReceiveFailed) + rest)
            == reports_of(samples),
        teardowns_after(phase, received(samples).push(EventView::ReceiveFailed) + rest) == 1,
{
    let deliveries = received(samples);
    let until_failure = deliveries.push(EventView::ReceiveFailed);
    lemma_one_report_per_sample(phase, samples);
    assert(until_failure.drop_last() =~= deliveries);
    assert(until_failure.last() == EventView::ReceiveFailed);
    assert(phase_after(phase, until_failure) == Phase::Closing);
    assert(reports_after(phase, until_failure) == reports_of(samples));
    assert(teardowns_after(phase, until_failure) == 1);
    lemma_course_in_parts(phase, until_failure, rest);
    lemma_quiet_after_failure(Phase::Closing, rest);
    assert(reports_of(samples) + Seq::<ReportView>::empty() =~= reports_of(samples));
}

/// How far a phase is along the course.
pub open spec fn progress(phase: Phase) -> nat {
    match phase {
        Phase::Idle => 0,
        Phase::SessionOpen => 1,
        Phase::Subscribed => 2,
        Phase::Receiving => 3,
        Phase::Closing => 4,
        Phase::Terminated => 5,
    }
}

/// The course never goes back, and over any events at all the teardown
/// becomes due at most once: once where receiving fails along the way,
/// never otherwise.
pub proof fn lemma_teardown_at_most_once(phase: Phase, events: Seq<EventView>)
    ensures
        progress(phase) <= progress(phase_after(phase, events)),
        teardowns_after(phase, events) <= 1,
        teardowns_after(phase, events) == 1 <==> progress(phase) < 4 <= progress(
            phase_after(phase, events),
        ),
    decreases events.len(),
{
    if events.len() > 0 {
        lemma_teardown_at_most_once(phase, events.drop_last());
    }
}

/// What a step hands back: what to print, if anything, and the work that
/// is due next.
#[derive(Debug)]
pub struct Step {
    pub report: Option<Report>,
    pub work: Work,
}

/// The tool's position in its course.
#[derive(Debug)]
pub struct Follower {
    phase: Phase,
}

impl Follower {
    /// The phase the tool stands in.
    pub closed spec fn spec_phase(&self) -> Phase {
        self.phase
    }

    /// A tool that has not begun: the session is to be opened.
    pub fn new() -> (follower: Self)
        ensures
            follower.spec_phase() == Phase::Idle,
    {
        Follower { phase: Phase::Idle }
    }

    /// The phase the tool stands in.
    #[verifier::when_used_as_spec(spec_phase)]
    pub fn phase(&self) -> (phase: Phase)
        ensures
            phase == self.spec_phase(),
    {
        self.phase
    }

    /// The work that is due now.
    pub fn work(&self) -> (work: Work)
        ensures
            work == work_in(self.spec_phase()),
    {
        work_for(self.phase)
    }

    /// Takes in the outcome of the work that was due: moves to the next
    /// phase and hands back what to print and what to do next.
    pub fn advance(&mut self, event: Event) -> (step: Step)
        ensures
            final(self).spec_phase() == next_phase(old(self).spec_phase(), event@),
            step.work == work_in(final(self).spec_phase()),
            match step.report {
                Some(report) => report_on(old(self).spec_phase(), event@) == Some(report@),
                None => report_on(old(self).spec_phase(), event@).is_none(),
            },
    {
        let phase = self.phase;
        let waiting: bool = phase == Phase::Subscribed || phase == Phase::Receiving;
        let mut report: Option<Report> = None;
        match event {
            Event::SessionOpened => {
                if phase == Phase::Idle {
                    self.phase = Phase::SessionOpen;
                }
            },
            Event::SubscriberDeclared => {
                if phase == Phase::SessionOpen {
                    self.phase = Phase::Subscribed;
                }
            },
            Event::Received(sample) => {
                if waiting {
                    self.phase = Phase::Receiving;
                    report = Some(report_for(sample));
                }
            },
            Event::ReceiveFailed => {
                if waiting {
                    self.phase = Phase::Closing;
                }
            },
            Event::TornDown => {
                if phase == Phase::Closing {
                    self.phase = Phase::Terminated;
                }
            },
        }
        Step { report, work: work_for(self.phase) }
    }
}

/// The work that is due in `phase`.
pub fn work_for(phase: Phase) -> (work: Work)
    ensures
        work == work_in(phase),
{
    match phase {
        Phase::Idle => Work::OpenSession,
        Phase::SessionOpen => Work::DeclareSubscriber,
        Phase::Subscribed => Work::Receive,
        Phase::Receiving => Work::Receive,
        Phase::Closing => Work::TearDown,
        Phase::Terminated => Work::Nothing,
    }
}

/// The report of `sample`: its timestamp, and the line of its decoding.
pub fn report_for(sample: Sample) -> (report: Report)
    ensures
        report@ == report_of(sample@),
{
    let line = decode_notice(&sample.decoded);
    Report { timestamp: sample.timestamp, line }
}

} // verus!
