//! The agent-facing session logic: identity resolution, the per-request
//! session state machine, and the classification of inbound user events.
//!
//! One `begin_authentication` invocation owns one [`SessionEngine`]. The
//! embedding binary runs the receive loop: it hands every inbound user
//! event to [`SessionEngine::classify_event`], performs the verification
//! attempt the engine asks for, and feeds the outcome back through
//! [`SessionEngine::on_attempt_result`]. The engine keeps the full
//! sequence of events it has emitted as ghost state, which carries the
//! ordering guarantees of the protocol.

use vstd::prelude::*;

use crate::codec::{AuthOutcome, SpecAuthOutcome};
use crate::events::{agent_event_cookie, AgentEvent, PolkitError, UserEvent};
use crate::transport::TransportError;

verus! {

/// A principal descriptor as the authority supplies it: a kind tag plus
/// the one attribute the agent consumes, a numeric user id (absent when
/// the identity carried no such attribute).
pub struct Identity {
    /// The kind tag; only `unix-user` identities are displayable.
    pub kind: String,
    /// The numeric user id attribute, where one was supplied.
    pub uid: Option<u32>,
}

/// The user id of a displayable identity: present exactly when the kind is
/// `unix-user` and a numeric user id attribute is there.
pub open spec fn spec_unix_uid(id: Identity) -> Option<u32> {
    if id.kind@ == "unix-user"@ && id.uid is Some {
        id.uid
    } else {
        None
    }
}

/// Executable form of [`spec_unix_uid`].
pub fn unix_uid(id: &Identity) -> (r: Option<u32>)
    ensures
        r == spec_unix_uid(*id),
{
    if id.kind == "unix-user".to_owned() {
        id.uid
    } else {
        None
    }
}

/// Relies on `etc_passwd::Passwd::from_uid` (a safe wrapper over
/// `getpwuid_r`): looks the id up in the system user database. Whether a
/// name comes back depends on that database, so nothing is promised of
/// the result.
#[verifier::external_body]
fn lookup_user_name(uid: u32) -> (r: Option<String>) {
    match etc_passwd::Passwd::from_uid(uid) {
        Ok(Some(user)) => user.name.into_string().ok(),
        Ok(None) => None,
        Err(_) => None,
    }
}

/// The user ids the agent looks up for one request, in order: one per
/// displayable identity, the others skipped.
pub open spec fn spec_display_uids(ids: Seq<Identity>) -> Seq<u32>
    decreases ids.len(),
{
    if ids.len() == 0 {
        Seq::empty()
    } else {
        spec_display_uids(ids.drop_last()) + (match spec_unix_uid(ids.last()) {
            Some(uid) => seq![uid],
            None => Seq::empty(),
        })
    }
}

/// There is at most one lookup per identity.
pub proof fn lemma_display_uids_len(ids: Seq<Identity>)
    ensures
        spec_display_uids(ids).len() <= ids.len(),
    decreases ids.len(),
{
    if ids.len() > 0 {
        lemma_display_uids_len(ids.drop_last());
    }
}

/// Collects the user ids of the displayable identities, in order.
pub fn displayable_uids(identities: &Vec<Identity>) -> (uids: Vec<u32>)
    ensures
        uids@ == spec_display_uids(identities@),
{
    let mut uids: Vec<u32> = Vec::new();
    let mut i: usize = 0;
    proof {
        assert(identities@.take(0) =~= Seq::<Identity>::empty());
        assert(uids@ =~= spec_display_uids(identities@.take(0)));
    }
    while i < identities.len()
        invariant
            0 <= i <= identities@.len(),
            uids@ == spec_display_uids(identities@.take(i as int)),
        decreases identities@.len() - i,
    {
        proof {
            assert(identities@.take(i as int + 1).drop_last() =~= identities@.take(i as int));
            assert(identities@.take(i as int + 1).last() == identities@[i as int]);
        }
        match unix_uid(&identities[i]) {
            Some(uid) => {
                uids.push(uid);
            },
            None => {},
        }
        proof {
            assert(uids@ =~= spec_display_uids(identities@.take(i as int + 1)));
        }
        i = i + 1;
    }
    proof {
        assert(identities@.take(i as int) =~= identities@);
    }
    uids
}

/// The views of a sequence of names.
pub open spec fn name_views(names: Seq<String>) -> Seq<Seq<char>> {
    names.map_values(|n: String| n@)
}

/// The names present in a sequence of lookup results, in order.
pub open spec fn spec_present_names(looked: Seq<Option<String>>) -> Seq<Seq<char>>
    decreases looked.len(),
{
    if looked.len() == 0 {
        Seq::empty()
    } else {
        spec_present_names(looked.drop_last()) + (match looked.last() {
            Some(n) => seq![n@],
            None => Seq::empty(),
        })
    }
}

/// No more names are kept than lookups were made.
pub proof fn lemma_present_names_len(looked: Seq<Option<String>>)
    ensures
        spec_present_names(looked).len() <= looked.len(),
    decreases looked.len(),
{
    if looked.len() > 0 {
        lemma_present_names_len(looked.drop_last());
    }
}

/// Keeps exactly the names that came back, in their order; failed lookups
/// are dropped silently.
pub fn collect_resolved(looked: &Vec<Option<String>>) -> (names: Vec<String>)
    ensures
        name_views(names@) == spec_present_names(looked@),
{
    let mut names: Vec<String> = Vec::new();
    let mut i: usize = 0;
    proof {
        assert(looked@.take(0) =~= Seq::<Option<String>>::empty());
        assert(name_views(names@) =~= spec_present_names(looked@.take(0)));
    }
    while i < looked.len()
        invariant
            0 <= i <= looked@.len(),
            name_views(names@) == spec_present_names(looked@.take(i as int)),
        decreases looked@.len() - i,
    {
        proof {
            assert(looked@.take(i as int + 1).drop_last() =~= looked@.take(i as int));
            assert(looked@.take(i as int + 1).last() == looked@[i as int]);
        }
        match &looked[i] {
            Some(n) => {
                names.push(n.clone());
            },
            None => {},
        }
        proof {
            assert(name_views(names@) =~= spec_present_names(looked@.take(i as int + 1)));
        }
        i = i + 1;
    }
    proof {
        assert(looked@.take(i as int) =~= looked@);
    }
    names
}

/// Looks every uid up in the user database: one result slot per uid, in
/// the uids' order.
fn lookup_names(uids: &Vec<u32>) -> (looked: Vec<Option<String>>)
    ensures
        looked@.len() == uids@.len(),
{
    let mut looked: Vec<Option<String>> = Vec::new();
    let mut i: usize = 0;
    while i < uids.len()
        invariant
            0 <= i <= uids@.len(),
            looked@.len() == i,
        decreases uids@.len() - i,
    {
        looked.push(lookup_user_name(uids[i]));
        i = i + 1;
    }
    looked
}

/// Resolves the displayable identities to user names: one lookup per
/// displayable identity, in order ([`spec_display_uids`]), keeping exactly
/// the names that came back, in that order ([`spec_present_names`]).
/// Which lookups succeed depends on the user database, so the contract
/// fixes the shape through a sequence of lookup results: one slot per
/// displayable identity.
pub fn resolve_identity_names(identities: &Vec<Identity>) -> (names: Vec<String>)
    ensures
        exists|looked: Seq<Option<String>>|
            #![auto]
            looked.len() == spec_display_uids(identities@).len() && name_views(names@)
                == spec_present_names(looked),
        names@.len() <= spec_display_uids(identities@).len(),
        spec_display_uids(identities@).len() <= identities@.len(),
{
    let uids = displayable_uids(identities);
    let looked = lookup_names(&uids);
    let names = collect_resolved(&looked);
    proof {
        lemma_present_names_len(looked@);
        lemma_display_uids_len(identities@);
        assert(name_views(names@).len() == names@.len());
        assert(looked@.len() == spec_display_uids(identities@).len() && name_views(names@)
            == spec_present_names(looked@));
    }
    names
}

/// The retry message shown when the transport itself failed.
pub open spec fn transport_error_message() -> Seq<char> {
    "Authentication error. Please try again."@
}

/// Folds one attempt's result into the session's view of it: a transport
/// or I/O failure becomes a retry with a fixed message and never ends the
/// session; raw transport errors are never propagated further.
pub fn attempt_outcome(result: Result<AuthOutcome, TransportError>) -> (r: AuthOutcome)
    ensures
        match result {
            Ok(o) => r == o,
            Err(e) => r@ == SpecAuthOutcome::Retry(transport_error_message()),
        },
{
    match result {
        Ok(o) => o,
        Err(_) => AuthOutcome::Retry("Authentication error. Please try again.".to_owned()),
    }
}

/// What the receive loop should do with one inbound user event.
pub enum Decision {
    /// Another session's traffic: keep waiting.
    Ignore,
    /// The user abandoned this request: fail the invocation.
    Cancel,
    /// Run one verification attempt with this credential.
    Attempt {
        /// The name the credential belongs to.
        username: String,
        /// The credential itself.
        password: String,
    },
}

/// The state machine behind one `begin_authentication` invocation: it
/// classifies inbound events against its cookie, emits the session's
/// events, and remembers (as ghost state) everything it has emitted.
pub struct SessionEngine {
    cookie: String,
    finished: bool,
    emitted: Ghost<Seq<AgentEvent>>,
}

impl SessionEngine {
    /// The cookie this session serves.
    pub closed spec fn spec_cookie(self) -> Seq<char> {
        self.cookie@
    }

    /// Whether the session reached a terminal state (success, cancellation
    /// or channel closure); a finished engine emits nothing further.
    pub closed spec fn is_finished(self) -> bool {
        self.finished
    }

    /// Every event this session has emitted, oldest first.
    pub closed spec fn history(self) -> Seq<AgentEvent> {
        self.emitted@
    }

    /// The session's invariant over its emitted events: all are addressed
    /// to its cookie; the `Started` event stands first and nowhere else;
    /// everything after it is a retry or the success; and a success is
    /// terminal, so it can only stand last, with the session finished.
    pub open spec fn wf(self) -> bool {
        &&& self.history().len() >= 1
        &&& self.history()[0] is Started
        &&& forall|i: int|
            0 <= i < self.history().len() ==> agent_event_cookie(#[trigger] self.history()[i])
                == self.spec_cookie()
        &&& forall|i: int|
            0 < i < self.history().len() ==> ((#[trigger] self.history()[i])
                is AuthorizationRetry || self.history()[i] is AuthorizationSucceeded)
        &&& forall|i: int|
            0 <= i < self.history().len() && (#[trigger] self.history()[i])
                is AuthorizationSucceeded ==> i == self.history().len() - 1 && self.is_finished()
    }

    /// Whether the session reached a terminal state.
    pub fn done(&self) -> (r: bool)
        ensures
            r == self.is_finished(),
    {
        self.finished
    }

    /// Opens a session: resolves nothing itself, just records the cookie
    /// and produces the `Started` event announcing the request, with the
    /// authority's message and the resolved names.
    pub fn new(cookie: String, message: String, names: Vec<String>) -> (r: (SessionEngine, AgentEvent))
        ensures
            r.0.wf(),
            !r.0.is_finished(),
            r.0.spec_cookie() == cookie@,
            (r.1 matches AgentEvent::Started { cookie: c, message: m, names: n } && c@ == cookie@
                && m@ == message@ && n@ == names@),
            r.0.history() == seq![r.1],
    {
        let ev = AgentEvent::Started { cookie: cookie.clone(), message, names };
        let ghost h: Seq<AgentEvent> = seq![ev];
        let engine = SessionEngine { cookie, finished: false, emitted: Ghost(h) };
        (engine, ev)
    }

    /// Classifies one inbound user event against this session's cookie:
    /// traffic for another cookie is ignored, a matching cancellation ends
    /// the invocation, and a matching credential runs one attempt.
    pub fn classify_event(&self, ev: &UserEvent) -> (d: Decision)
        ensures
            match *ev {
                UserEvent::Canceled { cookie: c } => d == (if c@ == self.spec_cookie() {
                    Decision::Cancel
                } else {
                    Decision::Ignore
                }),
                UserEvent::ProvidedPassword { cookie: c, username: u, password: p } => {
                    if c@ == self.spec_cookie() {
                        (d matches Decision::Attempt { username: du, password: dp } && du@ == u@
                            && dp@ == p@)
                    } else {
                        d == Decision::Ignore
                    }
                },
            },
    {
        match ev {
            UserEvent::Canceled { cookie } => {
                if *cookie == self.cookie {
                    Decision::Cancel
                } else {
                    Decision::Ignore
                }
            },
            UserEvent::ProvidedPassword { cookie, username, password } => {
                if *cookie == self.cookie {
                    Decision::Attempt { username: username.clone(), password: password.clone() }
                } else {
                    Decision::Ignore
                }
            },
        }
    }

    /// Bridges one attempt's outcome to the presentation surface: success
    /// emits the terminal event and finishes the session; a retry emits
    /// the retry message and keeps the session alive for the next
    /// credential.
    pub fn on_attempt_result(&mut self, outcome: AuthOutcome) -> (ev: AgentEvent)
        requires
            !old(self).is_finished(),
            old(self).wf(),
        ensures
            final(self).wf(),
            final(self).spec_cookie() == old(self).spec_cookie(),
            final(self).history() == old(self).history().push(ev),
            match outcome@ {
                SpecAuthOutcome::Success => {
                    &&& final(self).is_finished()
                    &&& (ev matches AgentEvent::AuthorizationSucceeded { cookie: c } && c@ == old(
                        self,
                    ).spec_cookie())
                },
                SpecAuthOutcome::Retry(msg) => {
                    &&& !final(self).is_finished()
                    &&& (ev matches AgentEvent::AuthorizationRetry { cookie: c, retry_message: rm }
                        && c@ == old(self).spec_cookie() && (rm matches Some(m) && m@ == msg))
                },
            },
    {
        match outcome {
            AuthOutcome::Success => {
                let ev = AgentEvent::AuthorizationSucceeded { cookie: self.cookie.clone() };
                self.finished = true;
                self.emitted = Ghost(self.emitted@.push(ev));
                ev
            },
            AuthOutcome::Retry(msg) => {
                let ev = AgentEvent::AuthorizationRetry {
                    cookie: self.cookie.clone(),
                    retry_message: Some(msg),
                };
                self.emitted = Ghost(self.emitted@.push(ev));
                ev
            },
        }
    }

    /// The user abandoned the request: the invocation fails with the one
    /// error kind the authority can tell from verification failure. No
    /// event is emitted.
    pub fn on_cancelled(&mut self) -> (e: PolkitError)
        requires
            !old(self).is_finished(),
        ensures
            final(self).is_finished(),
            final(self).history() == old(self).history(),
            final(self).spec_cookie() == old(self).spec_cookie(),
            old(self).wf() ==> final(self).wf(),
            (e matches PolkitError::Cancelled(m) && m@ == "User cancelled the authentication."@),
    {
        self.finished = true;
        PolkitError::Cancelled("User cancelled the authentication.".to_owned())
    }

    /// The inbound channel closed: the presentation side is gone, so the
    /// invocation fails. No event is emitted.
    pub fn on_channel_closed(&mut self) -> (e: PolkitError)
        requires
            !old(self).is_finished(),
        ensures
            final(self).is_finished(),
            final(self).history() == old(self).history(),
            final(self).spec_cookie() == old(self).spec_cookie(),
            old(self).wf() ==> final(self).wf(),
            (e matches PolkitError::Failed(m) && m@
                == "Failed to recieve data. channel closed"@),
    {
        self.finished = true;
        PolkitError::Failed("Failed to recieve data. channel closed".to_owned())
    }
}

/// How a session's receive loop ends.
pub enum SpecSessionEnd {
    /// A matching cancellation arrived: the invocation fails, distinctly.
    Cancelled,
    /// An attempt succeeded: the invocation returns successfully.
    Succeeded,
    /// The inbound events ran out: the presentation side is gone.
    ChannelClosed,
}

/// The views of a sequence of attempt outcomes.
pub open spec fn outcome_views(outs: Seq<AuthOutcome>) -> Seq<SpecAuthOutcome> {
    outs.map_values(|o: AuthOutcome| o@)
}

/// How many inbound events are credentials for this cookie: the attempts a
/// full run of the loop could perform.
pub open spec fn spec_matching_attempts(cookie: Seq<char>, evs: Seq<UserEvent>) -> nat
    decreases evs.len(),
{
    if evs.len() == 0 {
        0
    } else {
        let rest = spec_matching_attempts(cookie, evs.drop_first());
        match evs[0] {
            UserEvent::ProvidedPassword { cookie: c, username: u, password: p } => if c@
                == cookie {
                1 + rest
            } else {
                rest
            },
            UserEvent::Canceled { cookie: c } => rest,
        }
    }
}

/// The end of the receive loop on a recorded script: inbound events are
/// taken in order; traffic for another cookie is skipped; a matching
/// cancellation ends the loop; a matching credential consumes the next
/// attempt outcome, success ending the loop and a retry continuing it; an
/// exhausted script is the closed channel. A retry alone never ends the
/// loop: only cancellation, success or closure do.
pub open spec fn spec_session_end(
    cookie: Seq<char>,
    evs: Seq<UserEvent>,
    outs: Seq<SpecAuthOutcome>,
) -> SpecSessionEnd
    decreases evs.len(),
{
    if evs.len() == 0 {
        SpecSessionEnd::ChannelClosed
    } else {
        match evs[0] {
            UserEvent::Canceled { cookie: c } => if c@ == cookie {
                SpecSessionEnd::Cancelled
            } else {
                spec_session_end(cookie, evs.drop_first(), outs)
            },
            UserEvent::ProvidedPassword { cookie: c, username: u, password: p } => if c@
                != cookie {
                spec_session_end(cookie, evs.drop_first(), outs)
            } else if outs.len() == 0 {
                SpecSessionEnd::ChannelClosed
            } else {
                match outs[0] {
                    SpecAuthOutcome::Success => SpecSessionEnd::Succeeded,
                    SpecAuthOutcome::Retry(m) => spec_session_end(
                        cookie,
                        evs.drop_first(),
                        outs.drop_first(),
                    ),
                }
            },
        }
    }
}

/// The retry messages a scripted run of the receive loop emits, in order:
/// one per `Retry` outcome consumed before the loop ends, carrying that
/// outcome's message; nothing once cancellation, success or exhaustion
/// ends the loop.
pub open spec fn spec_session_retries(
    cookie: Seq<char>,
    evs: Seq<UserEvent>,
    outs: Seq<SpecAuthOutcome>,
) -> Seq<Seq<char>>
    decreases evs.len(),
{
    if evs.len() == 0 {
        Seq::empty()
    } else {
        match evs[0] {
            UserEvent::Canceled { cookie: c } => if c@ == cookie {
                Seq::empty()
            } else {
                spec_session_retries(cookie, evs.drop_first(), outs)
            },
            UserEvent::ProvidedPassword { cookie: c, username: u, password: p } => if c@
                != cookie {
                spec_session_retries(cookie, evs.drop_first(), outs)
            } else if outs.len() == 0 {
                Seq::empty()
            } else {
                match outs[0] {
                    SpecAuthOutcome::Success => Seq::empty(),
                    SpecAuthOutcome::Retry(m) => seq![m] + spec_session_retries(
                        cookie,
                        evs.drop_first(),
                        outs.drop_first(),
                    ),
                }
            },
        }
    }
}

/// One whole `begin_authentication` receive loop over a recorded script of
/// inbound events and attempt outcomes. Returns every event the session
/// emitted, oldest first, and the invocation's result. The contract fixes
/// both sides: the result is success exactly when an attempt succeeded
/// (never an error for a failed attempt alone), and the emitted list is
/// exactly the `Started` event with the given message and names, one
/// retry event per consumed `Retry` outcome carrying that outcome's
/// message, in order, and the success event last if and only if the call
/// returns success.
#[verifier::loop_isolation(false)]
pub fn run_session(
    cookie: String,
    message: String,
    names: Vec<String>,
    user_events: &Vec<UserEvent>,
    mut outcomes: Vec<AuthOutcome>,
) -> (r: (Vec<AgentEvent>, Result<(), PolkitError>))
    requires
        outcomes@.len() >= spec_matching_attempts(cookie@, user_events@),
    ensures
        ({
            let end = spec_session_end(cookie@, user_events@, outcome_views(outcomes@));
            &&& (r.1 is Ok <==> end is Succeeded)
            &&& (end is Cancelled ==> (r.1 matches Err(e) && (e matches PolkitError::Cancelled(m)
                && m@ == "User cancelled the authentication."@)))
            &&& (end is ChannelClosed ==> (r.1 matches Err(e) && (e matches PolkitError::Failed(m)
                && m@ == "Failed to recieve data. channel closed"@)))
        }),
        ({
            let retries = spec_session_retries(cookie@, user_events@, outcome_views(outcomes@));
            &&& r.0@.len() == 1 + retries.len() + (if r.1 is Ok {
                1int
            } else {
                0int
            })
            &&& forall|k: int|
                0 <= k < retries.len() ==> ((#[trigger] r.0@[1 + k]) matches
                    AgentEvent::AuthorizationRetry { cookie: c, retry_message: rm } && c@
                    == cookie@ && (rm matches Some(m) && m@ == retries[k]))
        }),
        (r.1 is Ok <==> r.0@.last() is AuthorizationSucceeded),
        (r.0@[0] matches AgentEvent::Started { cookie: c, message: m, names: n } && c@ == cookie@
            && m@ == message@ && n@ == names@),
        forall|i: int|
            0 <= i < r.0@.len() ==> agent_event_cookie(#[trigger] r.0@[i]) == cookie@,
        forall|i: int|
            0 < i < r.0@.len() ==> ((#[trigger] r.0@[i]) is AuthorizationRetry || r.0@[i]
                is AuthorizationSucceeded),
        forall|i: int|
            0 <= i < r.0@.len() && (#[trigger] r.0@[i]) is AuthorizationSucceeded ==> i
                == r.0@.len() - 1,
{
    let ghost all_outs = outcome_views(outcomes@);
    let ghost message_view = message@;
    let ghost names_view = names@;
    let (mut engine, started) = SessionEngine::new(cookie.clone(), message, names);
    let mut events: Vec<AgentEvent> = Vec::new();
    events.push(started);
    let mut i: usize = 0;
    let ghost mut retries_so_far: Seq<Seq<char>> = Seq::empty();
    proof {
        assert(user_events@.skip(0) =~= user_events@);
        assert(retries_so_far + spec_session_retries(cookie@, user_events@, all_outs)
            =~= spec_session_retries(cookie@, user_events@, all_outs));
    }
    loop
        invariant
            0 <= i <= user_events@.len(),
            engine.wf(),
            !engine.is_finished(),
            engine.spec_cookie() == cookie@,
            events@ == engine.history(),
            events@.len() == 1 + retries_so_far.len(),
            (events@[0] matches AgentEvent::Started { cookie: c, message: m, names: n } && c@
                == cookie@ && m@ == message_view && n@ == names_view),
            forall|k: int|
                0 <= k < retries_so_far.len() ==> ((#[trigger] events@[1 + k]) matches
                    AgentEvent::AuthorizationRetry { cookie: c, retry_message: rm } && c@
                    == cookie@ && (rm matches Some(m) && m@ == retries_so_far[k])),
            spec_session_end(cookie@, user_events@.skip(i as int), outcome_views(outcomes@))
                == spec_session_end(cookie@, user_events@, all_outs),
            spec_session_retries(cookie@, user_events@, all_outs) == retries_so_far
                + spec_session_retries(
                cookie@,
                user_events@.skip(i as int),
                outcome_views(outcomes@),
            ),
            outcomes@.len() >= spec_matching_attempts(
                cookie@,
                user_events@.skip(i as int),
            ),
        decreases user_events@.len() - i,
    {
        if i == user_events.len() {
            proof {
                assert(user_events@.skip(i as int) =~= Seq::<UserEvent>::empty());
                assert(retries_so_far + Seq::<Seq<char>>::empty() =~= retries_so_far);
                assert(forall|k: int|
                    0 <= k < events@.len() ==> !((#[trigger] events@[k])
                        is AuthorizationSucceeded));
            }
            let e = engine.on_channel_closed();
            return (events, Err(e));
        }
        let ghost evs_here = user_events@.skip(i as int);
        proof {
            assert(evs_here[0] == user_events@[i as int]);
            assert(evs_here.drop_first() =~= user_events@.skip(i as int + 1));
        }
        match engine.classify_event(&user_events[i]) {
            Decision::Ignore => {
                i = i + 1;
            },
            Decision::Cancel => {
                proof {
                    assert(retries_so_far + Seq::<Seq<char>>::empty() =~= retries_so_far);
                    assert(forall|k: int|
                        0 <= k < events@.len() ==> !((#[trigger] events@[k])
                            is AuthorizationSucceeded));
                }
                let e = engine.on_cancelled();
                return (events, Err(e));
            },
            Decision::Attempt { username: _, password: _ } => {
                let ghost prev = outcomes@;
                let outcome = outcomes.remove(0);
                proof {
                    assert(outcome_views(outcomes@) =~= outcome_views(prev).drop_first());
                    assert(outcome_views(prev)[0] == outcome@);
                }
                let emitted = engine.on_attempt_result(outcome);
                let succeeded = matches!(emitted, AgentEvent::AuthorizationSucceeded { .. });
                events.push(emitted);
                if succeeded {
                    proof {
                        assert(retries_so_far + Seq::<Seq<char>>::empty() =~= retries_so_far);
                    }
                    return (events, Ok(()));
                }
                proof {
                    let m = match outcome@ {
                        SpecAuthOutcome::Retry(mm) => mm,
                        SpecAuthOutcome::Success => Seq::empty(),
                    };
                    let tail = spec_session_retries(
                        cookie@,
                        evs_here.drop_first(),
                        outcome_views(outcomes@),
                    );
                    assert(spec_session_retries(cookie@, evs_here, outcome_views(prev))
                        == seq![m] + tail);
                    assert(retries_so_far + (seq![m] + tail) =~= retries_so_far.push(m) + tail);
                    retries_so_far = retries_so_far.push(m);
                }
                i = i + 1;
            },
        }
    }
}

/// Event ordering law: within one session's emitted stream, the `Started`
/// event stands first and precedes every retry and success event, and at
/// most one success event is ever emitted.
pub proof fn lemma_event_ordering(e: SessionEngine)
    requires
        e.wf(),
    ensures
        e.history()[0] is Started,
        forall|i: int|
            0 < i < e.history().len() ==> ((#[trigger] e.history()[i]) is AuthorizationRetry
                || e.history()[i] is AuthorizationSucceeded),
        forall|i: int, j: int|
            0 <= i < e.history().len() && 0 <= j < e.history().len() && (#[trigger] e.history()[i])
                is AuthorizationSucceeded && (#[trigger] e.history()[j])
                is AuthorizationSucceeded ==> i == j,
{
}

/// The event `cancel_authentication` publishes, fire-and-forget: the
/// invocation owning the cookie observes it on its own receive loop.
pub fn cancel_event(cookie: &str) -> (e: AgentEvent)
    ensures
        (e matches AgentEvent::Canceled { cookie: c } && c@ == cookie@),
{
    AgentEvent::Canceled { cookie: cookie.to_owned() }
}

} // verus!
