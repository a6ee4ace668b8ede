//! One in-flight streaming exchange, as a state machine over decoded stream
//! events.
//!
//! A session is created in the `Streaming` phase for one submission and
//! never reused. The surrounding event loop feeds it one decoded event at a
//! time; the session checks its cooperative cancellation switch before
//! processing each event, accumulates text deltas in arrival order, and
//! reports through a directive whether the decoder should be closed.

use vstd::prelude::*;
use vstd::string::StringExecFns;

use crate::adapter::extract_delta;
use crate::adapter::spec_extract_delta;
use crate::settings::Provider;

verus! {

/// One provider-agnostic event decoded from the transport's stream.
pub enum StreamEvent {
    /// The connection opened.
    Opened,
    /// One server-sent message with its raw payload text.
    Message(String),
    /// The far end signalled normal end-of-stream.
    EndOfStream,
    /// The transport failed; the text describes the failure.
    TransportError(String),
}

/// The mathematical image of a stream event.
pub ghost enum EventView {
    Opened,
    Message(Seq<char>),
    EndOfStream,
    TransportError(Seq<char>),
}

impl View for StreamEvent {
    type V = EventView;

    open spec fn view(&self) -> EventView {
        match self {
            StreamEvent::Opened => EventView::Opened,
            StreamEvent::Message(p) => EventView::Message(p@),
            StreamEvent::EndOfStream => EventView::EndOfStream,
            StreamEvent::TransportError(m) => EventView::TransportError(m@),
        }
    }
}

/// Where a session stands in its lifecycle.
pub enum Phase {
    /// Events are still being consumed.
    Streaming,
    /// The far end signalled normal completion.
    Completed,
    /// Cancellation was observed before an event was processed.
    Cancelled,
    /// The transport failed; the text describes the failure.
    Errored(String),
}

/// The mathematical image of a session phase.
pub ghost enum PhaseView {
    Streaming,
    Completed,
    Cancelled,
    Errored(Seq<char>),
}

impl View for Phase {
    type V = PhaseView;

    open spec fn view(&self) -> PhaseView {
        match self {
            Phase::Streaming => PhaseView::Streaming,
            Phase::Completed => PhaseView::Completed,
            Phase::Cancelled => PhaseView::Cancelled,
            Phase::Errored(m) => PhaseView::Errored(m@),
        }
    }
}

/// What the event loop should do after handing the session an event.
#[derive(Clone, Copy, Debug, PartialEq, Eq, Structural)]
pub enum Directive {
    /// Keep feeding events.
    Continue,
    /// Close the decoder; the session reached a terminal phase.
    Close,
}

/// The mathematical image of a session.
pub ghost struct SessionView {
    pub provider: Provider,
    pub prompt: Seq<char>,
    pub buffer: Seq<Seq<char>>,
    pub cancel: bool,
    pub phase: PhaseView,
}

/// The concatenation of a token buffer in arrival order.
pub open spec fn concat_all(tokens: Seq<Seq<char>>) -> Seq<char>
    decreases tokens.len(),
{
    if tokens.len() == 0 {
        Seq::empty()
    } else {
        concat_all(tokens.drop_last()) + tokens.last()
    }
}

/// One transition of the session state machine: the cancellation switch is
/// checked first and, if set, wins, discarding the event; otherwise a
/// message may contribute a delta, end-of-stream completes the session, and
/// a transport error ends it with the message, preserving the partial
/// buffer.
pub open spec fn step(s: SessionView, e: EventView) -> SessionView {
    if s.cancel {
        SessionView { phase: PhaseView::Cancelled, ..s }
    } else {
        match e {
            EventView::Opened => s,
            EventView::Message(payload) => match spec_extract_delta(s.provider, payload) {
                Some(d) => SessionView { buffer: s.buffer.push(d), ..s },
                None => s,
            },
            EventView::EndOfStream => SessionView { phase: PhaseView::Completed, ..s },
            EventView::TransportError(m) => SessionView { phase: PhaseView::Errored(m), ..s },
        }
    }
}

/// The directive the transition reports: close exactly when the session
/// left the `Streaming` phase.
pub open spec fn step_directive(s: SessionView, e: EventView) -> Directive {
    if step(s, e).phase is Streaming {
        Directive::Continue
    } else {
        Directive::Close
    }
}

/// The session state after a whole sequence of events, first to last.
pub open spec fn run(s: SessionView, events: Seq<EventView>) -> SessionView
    decreases events.len(),
{
    if events.len() == 0 {
        s
    } else {
        run(step(s, events.first()), events.drop_first())
    }
}

/// The deltas a sequence of message payloads carries under a provider, in
/// order, skipping payloads that carry none.
pub open spec fn deltas_of(p: Provider, payloads: Seq<Seq<char>>) -> Seq<Seq<char>>
    decreases payloads.len(),
{
    if payloads.len() == 0 {
        Seq::empty()
    } else {
        (match spec_extract_delta(p, payloads.first()) {
            Some(d) => seq![d],
            None => Seq::empty(),
        }) + deltas_of(p, payloads.drop_first())
    }
}

/// One in-flight streaming exchange.
pub struct StreamingSession {
    provider: Provider,
    prompt: String,
    buffer: Vec<String>,
    cancel_requested: bool,
    phase: Phase,
}

impl View for StreamingSession {
    type V = SessionView;

    closed spec fn view(&self) -> SessionView {
        SessionView {
            provider: self.provider,
            prompt: self.prompt@,
            buffer: self.buffer@.map_values(|t: String| t@),
            cancel: self.cancel_requested,
            phase: self.phase@,
        }
    }
}

/// The state a fresh session starts in.
pub open spec fn initial_session(provider: Provider, prompt: Seq<char>) -> SessionView {
    SessionView {
        provider,
        prompt,
        buffer: Seq::empty(),
        cancel: false,
        phase: PhaseView::Streaming,
    }
}

impl StreamingSession {
    /// Starts a session for one submission: streaming, with an empty token
    /// buffer and the cancellation switch unset.
    pub fn start(provider: Provider, prompt: String) -> (r: Self)
        ensures
            r@ == initial_session(provider, prompt@),
    {
        let r = StreamingSession {
            provider,
            prompt,
            buffer: Vec::new(),
            cancel_requested: false,
            phase: Phase::Streaming,
        };
        proof {
            assert(r@.buffer =~= Seq::<Seq<char>>::empty());
            assert(r@ == initial_session(provider, r.prompt@));
        }
        r
    }

    /// Sets the cooperative cancellation switch. Idempotent; the switch is
    /// observed before the next event is processed, never mid-event.
    pub fn cancel(&mut self)
        ensures
            final(self)@ == (SessionView { cancel: true, ..old(self)@ }),
    {
        self.cancel_requested = true;
    }

    /// Whether the session is still consuming events.
    pub fn is_streaming(&self) -> (r: bool)
        ensures
            r == (self@.phase is Streaming),
    {
        match self.phase {
            Phase::Streaming => true,
            _ => false,
        }
    }

    /// The prompt this session was submitted for.
    pub fn prompt(&self) -> (r: &String)
        ensures
            r@ == self@.prompt,
    {
        &self.prompt
    }

    /// The transport failure message, when the session ended in the
    /// `Errored` phase.
    pub fn error_text(&self) -> (r: Option<String>)
        ensures
            (match r {
                Some(m) => Some(m@),
                None => None,
            }) == (match self@.phase {
                PhaseView::Errored(m) => Some(m),
                _ => None::<Seq<char>>,
            }),
    {
        match &self.phase {
            Phase::Errored(m) => Some(m.clone()),
            _ => None,
        }
    }

    /// The tokens accumulated so far, in arrival order.
    pub fn tokens(&self) -> (r: &Vec<String>)
        ensures
            r@.map_values(|t: String| t@) == self@.buffer,
    {
        &self.buffer
    }

    /// The concatenation of the accumulated tokens in arrival order.
    pub fn accumulated_text(&self) -> (r: String)
        ensures
            r@ == concat_all(self@.buffer),
    {
        let ghost toks = self@.buffer;
        let mut r = String::new();
        let mut i: usize = 0;
        while i < self.buffer.len()
            invariant
                i <= self.buffer@.len(),
                toks == self@.buffer,
                toks.len() == self.buffer@.len(),
                r@ == concat_all(toks.take(i as int)),
            decreases self.buffer@.len() - i,
        {
            r.append(self.buffer[i].as_str());
            proof {
                assert(toks.take(i + 1).drop_last() =~= toks.take(i as int));
                assert(toks.take(i + 1).last() == toks[i as int]);
            }
            i = i + 1;
        }
        proof {
            assert(toks.take(toks.len() as int) =~= toks);
        }
        r
    }

    /// Feeds the session one decoded event and reports whether the decoder
    /// should be closed. The cancellation switch is checked before the
    /// event is looked at; a set switch discards the event and ends the
    /// session as `Cancelled`.
    pub fn on_event(&mut self, event: StreamEvent) -> (d: Directive)
        requires
            old(self)@.phase is Streaming,
        ensures
            final(self)@ == step(old(self)@, event@),
            d == step_directive(old(self)@, event@),
    {
        let ghost prev = self@;
        if self.cancel_requested {
            self.phase = Phase::Cancelled;
            return Directive::Close;
        }
        match event {
            StreamEvent::Opened => Directive::Continue,
            StreamEvent::Message(payload) => {
                match extract_delta(self.provider, payload.as_str()) {
                    Some(d) => {
                        self.buffer.push(d);
                        proof {
                            assert(self@.buffer =~= prev.buffer.push(
                                spec_extract_delta(prev.provider, payload@).unwrap(),
                            ));
                        }
                    },
                    None => {},
                }
                Directive::Continue
            },
            StreamEvent::EndOfStream => {
                self.phase = Phase::Completed;
                Directive::Close
            },
            StreamEvent::TransportError(m) => {
                self.phase = Phase::Errored(m);
                Directive::Close
            },
        }
    }
}

/// Law (token order): feed a streaming, uncancelled session any sequence of
/// message payloads followed by end-of-stream, and it completes with its
/// buffer extended by exactly the deltas those payloads carry, in arrival
/// order; the text it then reports is their concatenation. No token is
/// reordered, dropped or duplicated.
pub proof fn lemma_token_order(s: SessionView, payloads: Seq<Seq<char>>)
    requires
        s.phase is Streaming,
        !s.cancel,
    ensures
        ({
            let events = payloads.map_values(|p: Seq<char>| EventView::Message(p)).push(
                EventView::EndOfStream,
            );
            let end = run(s, events);
            &&& end.phase is Completed
            &&& end.buffer == s.buffer + deltas_of(s.provider, payloads)
        }),
    decreases payloads.len(),
{
    let events = payloads.map_values(|p: Seq<char>| EventView::Message(p)).push(
        EventView::EndOfStream,
    );
    if payloads.len() == 0 {
        assert(events.len() == 1);
        assert(events.first() == EventView::EndOfStream);
        assert(events.drop_first() =~= Seq::<EventView>::empty());
        assert(run(s, events) == run(step(s, EventView::EndOfStream), events.drop_first()));
        assert(run(step(s, EventView::EndOfStream), Seq::<EventView>::empty()) == step(
            s,
            EventView::EndOfStream,
        ));
        assert(run(s, events).buffer =~= s.buffer + deltas_of(s.provider, payloads));
    } else {
        let p0 = payloads.first();
        let s1 = step(s, EventView::Message(p0));
        let rest = payloads.drop_first();
        assert(events.first() == EventView::Message(p0));
        assert(events.drop_first() =~= rest.map_values(|p: Seq<char>| EventView::Message(p)).push(
            EventView::EndOfStream,
        ));
        lemma_token_order(s1, rest);
        let end = run(s, events);
        assert(end == run(s1, events.drop_first()));
        assert(end.buffer == s1.buffer + deltas_of(s.provider, rest));
        assert(end.buffer =~= s.buffer + deltas_of(s.provider, payloads));
    }
}

/// Law: once the cancellation switch is set, the very next event — whatever
/// it is — ends the session as `Cancelled`, closes the decoder, and leaves
/// the buffer exactly as it was: no token arrives after the check fires.
pub proof fn lemma_cancel_discards_event(s: SessionView, e: EventView)
    requires
        s.cancel,
    ensures
        step(s, e).phase is Cancelled,
        step(s, e).buffer == s.buffer,
        step_directive(s, e) == Directive::Close,
{
}

} // verus!
