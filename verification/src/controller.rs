//! The glue between the exchange store and one streaming session per
//! submission.
//!
//! At most one session exists at a time: the controller holds a single
//! optional session, so two sessions can never accumulate or commit
//! concurrently. A submission is rejected while a session is active, and
//! rejected before any network work when no API key is selected. When a
//! session reaches a terminal phase, the accumulated tokens are committed as
//! a new exchange if any arrived — whatever the terminal phase was — and
//! discarded otherwise (the salvage policy: partial text survives an error
//! or a late cancellation, and a cancellation before the first token leaves
//! the store untouched).

use vstd::prelude::*;

use crate::adapter::build_request;
use crate::adapter::headers_view;
use crate::adapter::pairs_view;
use crate::adapter::provider_url;
use crate::adapter::request_body_json;
use crate::adapter::spec_headers;
use crate::adapter::HttpRequest;
use crate::session::concat_all;
use crate::session::initial_session;
use crate::session::step;
use crate::session::step_directive;
use crate::session::Directive;
use crate::session::PhaseView;
use crate::session::SessionView;
use crate::session::StreamEvent;
use crate::session::StreamingSession;
use crate::settings::spec_selected_key;
use crate::settings::Settings;
use crate::store::append_spec;
use crate::store::delete_spec;
use crate::store::edit_spec;
use crate::store::initial_store;
use crate::store::store_inv;
use crate::store::ExchangeStore;
use crate::store::StoreView;

verus! {

/// Why a submission was rejected before any network work.
#[derive(Clone, Copy, Debug, PartialEq, Eq, Structural)]
pub enum SubmitError {
    /// A session is already active; at most one may run at a time.
    AlreadyStreaming,
    /// No API key is selected, or the selection index is out of range.
    NoApiKey,
}

/// The mathematical image of the controller.
pub ghost struct ControllerView {
    pub store: StoreView,
    pub session: Option<SessionView>,
    pub last_error: Option<Seq<char>>,
}

/// The (prompt, response) pairs of a store's live exchanges, in
/// conversation order: the history a request payload is built from.
pub open spec fn history_of(v: StoreView) -> Seq<(Seq<char>, Seq<char>)> {
    v.entries.map_values(|e: crate::store::ExchangeView| (e.prompt, e.response))
}

/// One streaming session per submit, glued to the exchange store.
pub struct SessionController {
    store: ExchangeStore,
    session: Option<StreamingSession>,
    last_error: Option<String>,
}

impl View for SessionController {
    type V = ControllerView;

    closed spec fn view(&self) -> ControllerView {
        ControllerView {
            store: self.store@,
            session: match self.session {
                Some(s) => Some(s@),
                None => None,
            },
            last_error: match self.last_error {
                Some(m) => Some(m@),
                None => None,
            },
        }
    }
}

impl SessionController {
    /// The controller's well-formedness: its store is well formed.
    pub open spec fn inv(&self) -> bool {
        store_inv(self@.store)
    }

    /// A controller over an empty history, with no session and no error.
    pub fn new() -> (r: Self)
        ensures
            r.inv(),
            r@.store == initial_store(),
            r@.session is None,
            r@.last_error is None,
    {
        SessionController { store: ExchangeStore::new(), session: None, last_error: None }
    }

    /// Whether a session is currently consuming events.
    pub fn is_streaming(&self) -> (r: bool)
        ensures
            r == (self@.session matches Some(s) && s.phase is Streaming),
    {
        match &self.session {
            Some(s) => s.is_streaming(),
            None => false,
        }
    }

    /// Whether a session exists, streaming or waiting to be reconciled.
    pub fn has_session(&self) -> (r: bool)
        ensures
            r == (self@.session is Some),
    {
        self.session.is_some()
    }

    /// The id the next committed exchange will receive.
    pub fn next_exchange_id(&self) -> (r: u64)
        ensures
            r == self@.store.next_id,
    {
        self.store.next_id()
    }

    /// The last surfaced error text, if any.
    pub fn last_error(&self) -> (r: Option<&String>)
        ensures
            (match r {
                Some(m) => Some(m@),
                None => None,
            }) == self@.last_error,
    {
        self.last_error.as_ref()
    }

    /// A point-in-time copy of the history as (prompt, response) pairs.
    pub fn snapshot(&self) -> (r: Vec<(String, String)>)
        ensures
            pairs_view(r@) == history_of(self@.store),
    {
        let r = self.store.snapshot();
        proof {
            assert(pairs_view(r@) =~= history_of(self@.store));
        }
        r
    }

    /// How many exchanges the history currently holds.
    pub fn exchange_count(&self) -> (r: usize)
        ensures
            r == self@.store.entries.len(),
    {
        self.store.len()
    }

    /// Submits one prompt. Rejected while a session is active (at most one
    /// streams at a time) and when no API key is selected; otherwise a
    /// fresh streaming session is created over a snapshot of the current
    /// history — later edits cannot change what this request already
    /// carries — and the fully built HTTP request is handed back for the
    /// transport to send.
    pub fn submit(&mut self, prompt: String, settings: &Settings) -> (r: Result<
        HttpRequest,
        SubmitError,
    >)
        requires
            old(self).inv(),
        ensures
            final(self).inv(),
            final(self)@.store == old(self)@.store,
            old(self)@.session is Some ==> r == Err::<HttpRequest, SubmitError>(
                SubmitError::AlreadyStreaming,
            ) && final(self)@ == old(self)@,
            old(self)@.session is None && spec_selected_key(*settings) is None ==> r == Err::<
                HttpRequest,
                SubmitError,
            >(SubmitError::NoApiKey) && final(self)@.session is None
                && final(self)@.last_error == Some("No key available."@),
            spec_selected_key(*settings) matches Some(k) ==> old(self)@.session is None ==> (
            match r {
                Ok(req) => {
                    &&& req.url@ == provider_url(k.provider)
                    &&& headers_view(req.headers@) == spec_headers(k.provider, k.key@)
                    &&& req.body@ == request_body_json(
                        settings.model@,
                        settings.max_tokens,
                        settings.temperature_tenths,
                        history_of(old(self)@.store),
                        prompt@,
                    )
                    &&& final(self)@.session == Some(initial_session(k.provider, prompt@))
                    &&& final(self)@.last_error is None
                },
                Err(_) => false,
            }),
    {
        match &self.session {
            Some(_) => Err(SubmitError::AlreadyStreaming),
            None => {
                match settings.selected_key() {
                    None => {
                        self.last_error = Some(String::from_str("No key available."));
                        Err(SubmitError::NoApiKey)
                    },
                    Some(key) => {
                        let provider = key.provider;
                        let snap = self.store.snapshot();
                        let req = build_request(
                            provider,
                            key.key.as_str(),
                            settings,
                            &snap,
                            prompt.as_str(),
                        );
                        proof {
                            assert(pairs_view(snap@) =~= history_of(self@.store));
                        }
                        self.last_error = None;
                        self.session = Some(StreamingSession::start(provider, prompt));
                        Ok(req)
                    },
                }
            },
        }
    }

    /// Sets the active session's cancellation switch; idempotent, and a
    /// no-op when nothing is streaming.
    pub fn cancel(&mut self)
        requires
            old(self).inv(),
        ensures
            final(self).inv(),
            final(self)@.store == old(self)@.store,
            final(self)@.last_error == old(self)@.last_error,
            old(self)@.session matches Some(s) ==> final(self)@.session == Some(
                (SessionView { cancel: true, ..s }),
            ),
            old(self)@.session is None ==> final(self)@ == old(self)@,
    {
        match &mut self.session {
            Some(s) => s.cancel(),
            None => {},
        }
    }

    /// Feeds the active session one decoded event; a transport error is
    /// surfaced as the last error text. Reports whether the decoder should
    /// be closed.
    pub fn on_event(&mut self, event: StreamEvent) -> (d: Directive)
        requires
            old(self).inv(),
            old(self)@.session matches Some(s) && s.phase is Streaming,
        ensures
            final(self).inv(),
            final(self)@.store == old(self)@.store,
            old(self)@.session matches Some(s) ==> {
                &&& final(self)@.session == Some(step(s, event@))
                &&& d == step_directive(s, event@)
                &&& final(self)@.last_error == (match step(s, event@).phase {
                    PhaseView::Errored(m) => Some(m),
                    _ => old(self)@.last_error,
                })
            },
    {
        let d: Directive;
        let err: Option<String>;
        match &mut self.session {
            Some(s) => {
                d = s.on_event(event);
                err = s.error_text();
            },
            None => {
                proof {
                    assert(false);
                }
                d = Directive::Close;
                err = None;
            },
        }
        match err {
            Some(m) => {
                self.last_error = Some(m);
            },
            None => {},
        }
        d
    }

    /// Reconciles a finished session into the store and reports whether a
    /// commit happened (the caller then resets the prompt input). The
    /// salvage policy: any non-empty token buffer is committed as the
    /// response — whether the session completed, was cancelled late, or
    /// errored after some tokens — while an empty buffer leaves the store
    /// untouched.
    pub fn finalize(&mut self) -> (committed: bool)
        requires
            old(self).inv(),
            old(self)@.session matches Some(s) && !(s.phase is Streaming),
            old(self)@.store.next_id < u64::MAX,
        ensures
            final(self).inv(),
            final(self)@.session is None,
            final(self)@.last_error == old(self)@.last_error,
            old(self)@.session matches Some(s) ==> {
                &&& committed == (s.buffer.len() > 0)
                &&& s.buffer.len() == 0 ==> final(self)@.store == old(self)@.store
                &&& s.buffer.len() > 0 ==> final(self)@.store == append_spec(
                    old(self)@.store,
                    s.prompt,
                    concat_all(s.buffer),
                )
            },
    {
        let sess = self.session.take();
        match sess {
            Some(s) => {
                if s.tokens().len() == 0 {
                    false
                } else {
                    let text = s.accumulated_text();
                    let prompt = s.prompt().clone();
                    self.store.append(prompt, text);
                    true
                }
            },
            None => {
                proof {
                    assert(false);
                }
                false
            },
        }
    }

    /// Replaces the exchange with the given id, in place; a no-op when the
    /// id was already deleted.
    pub fn edit(&mut self, id: u64, prompt: String, response: String)
        requires
            old(self).inv(),
        ensures
            final(self).inv(),
            final(self)@.store == edit_spec(old(self)@.store, id, prompt@, response@),
            final(self)@.session == old(self)@.session,
            final(self)@.last_error == old(self)@.last_error,
    {
        self.store.edit(id, prompt, response);
    }

    /// Removes the exchange with the given id; a no-op when the id was
    /// already deleted.
    pub fn delete(&mut self, id: u64)
        requires
            old(self).inv(),
        ensures
            final(self).inv(),
            final(self)@.store == delete_spec(old(self)@.store, id),
            final(self)@.session == old(self)@.session,
            final(self)@.last_error == old(self)@.last_error,
    {
        self.store.delete(id);
    }

    /// Empties the history and resets exchange identity, as a fresh
    /// controller would start.
    pub fn clear(&mut self)
        requires
            old(self).inv(),
        ensures
            final(self).inv(),
            final(self)@.store == initial_store(),
            final(self)@.session == old(self)@.session,
            final(self)@.last_error == old(self)@.last_error,
    {
        self.store.clear();
    }
}

} // verus!
