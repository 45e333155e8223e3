//! The verifier's side of a session: take a commitment, challenge it, and
//! check the response against the prover's public element.

use crate::group::{basepoint, ristretto_add, ristretto_mul, GroupElement};
use crate::message::{
    commit_kind, commit_payload_spec, encode_spec, lemma_kinds_differ, lemma_message_round_trip,
    response_kind, scalar_payload_spec, Message, MessageKind, MessageView, ProtocolMessageView,
};
use crate::prover::response_value;
use crate::scalar::{group_order, Scalar};
use crate::session::{
    sends_decodable, stray_event, stray_event_error, Action, ActionView, Event, EventView,
    ProtocolError, SessionError,
};
use vstd::prelude::*;

verus! {

/// The verification equation `s·G = R + c·X`.
pub open spec fn verification_holds(
    public: Seq<u8>,
    commitment: Seq<u8>,
    challenge: nat,
    response: nat,
) -> bool {
    ristretto_mul(basepoint(), response) == ristretto_add(
        commitment,
        ristretto_mul(public, challenge),
    )
}

/// Where the commitment is `k·G` and the public element is `x·G`, the
/// equation holds of exactly one response: `k + c·x` modulo the group's order.
pub open spec fn holds_of_honest_response_only(
    public: Seq<u8>,
    commitment: Seq<u8>,
    challenge: nat,
    response: nat,
) -> bool {
    forall|nonce: nat, secret: nat|
        nonce < group_order() && secret < group_order() && commitment == #[trigger] ristretto_mul(
            basepoint(),
            nonce,
        ) && public == #[trigger] ristretto_mul(basepoint(), secret) ==> (verification_holds(
            public,
            commitment,
            challenge,
            response,
        ) <==> response == response_value(nonce, challenge, secret))
}

/// Checks a response: whether `s·G = R + c·X`.
pub fn verify_response(
    public: &GroupElement,
    commitment: &GroupElement,
    challenge: &Scalar,
    response: &Scalar,
) -> (accepted: bool)
    ensures
        accepted == verification_holds(public@, commitment@, challenge@, response@),
        holds_of_honest_response_only(public@, commitment@, challenge@, response@),
{
    let generator = GroupElement::generator();
    let left = generator.times(response);
    let scaled = public.times(challenge);
    let right = commitment.plus(&scaled);
    proof {
        use_type_invariant(challenge);
        use_type_invariant(response);
        challenge.lemma_reduced();
        response.lemma_reduced();
        assert forall|nonce: nat, secret: nat|
            nonce < group_order() && secret < group_order() && commitment@
                == #[trigger] ristretto_mul(basepoint(), nonce) && public@
                == #[trigger] ristretto_mul(basepoint(), secret) implies (verification_holds(
            public@,
            commitment@,
            challenge@,
            response@,
        ) <==> response@ == response_value(nonce, challenge@, secret)) by {
            let order = group_order();
            let factor = (secret * challenge@) % order;
            assert(scaled@ == ristretto_mul(basepoint(), factor));
            assert(right@ == ristretto_mul(basepoint(), (nonce + factor) % order));
            assert((nonce + factor) % order == response_value(nonce, challenge@, secret)) by {
                vstd::arithmetic::div_mod::lemma_add_mod_noop_right(
                    nonce as int,
                    (secret * challenge@) as int,
                    order as int,
                );
                assert(secret * challenge@ == challenge@ * secret) by (nonlinear_arith);
            }
        }
    }
    left.same(&right)
}

/// Where the verifier stands.
#[derive(Clone, Copy, Debug)]
pub enum VerifierState {
    /// The commitment is awaited.
    AwaitingCommit,
    /// The challenge to a commitment has been handed out.
    ChallengeSent { commitment: GroupElement, challenge: Scalar },
    /// The challenge has been written; the response is awaited.
    AwaitingResponse { commitment: GroupElement, challenge: Scalar },
    /// The response satisfied the equation.
    Verified,
    /// The response did not satisfy the equation.
    Rejected,
    /// The session failed.
    Aborted { error: SessionError },
}

/// Where the verifier stands, with what it holds as plain values.
pub ghost enum VerifierStateView {
    AwaitingCommit,
    ChallengeSent { commitment: Seq<u8>, challenge: nat },
    AwaitingResponse { commitment: Seq<u8>, challenge: nat },
    Verified,
    Rejected,
    Aborted { error: SessionError },
}

impl View for VerifierState {
    type V = VerifierStateView;

    open spec fn view(&self) -> VerifierStateView {
        match *self {
            VerifierState::AwaitingCommit => VerifierStateView::AwaitingCommit,
            VerifierState::ChallengeSent { commitment, challenge } => {
                VerifierStateView::ChallengeSent { commitment: commitment@, challenge: challenge@ }
            },
            VerifierState::AwaitingResponse { commitment, challenge } => {
                VerifierStateView::AwaitingResponse {
                    commitment: commitment@,
                    challenge: challenge@,
                }
            },
            VerifierState::Verified => VerifierStateView::Verified,
            VerifierState::Rejected => VerifierStateView::Rejected,
            VerifierState::Aborted { error } => VerifierStateView::Aborted { error },
        }
    }
}

/// The state in which a session ends for an event that its state has no use
/// for.
pub open spec fn verifier_aborts(error: SessionError) -> (VerifierStateView, ActionView) {
    (VerifierStateView::Aborted { error }, ActionView::Stop)
}

/// The verifier's transition: the state and the action that follow from a
/// state and an event. `fresh` is the challenge that is drawn when a
/// commitment arrives.
pub open spec fn verifier_step(
    public: Seq<u8>,
    state: VerifierStateView,
    event: EventView,
    fresh: nat,
) -> (VerifierStateView, ActionView) {
    match state {
        VerifierStateView::AwaitingCommit => match event {
            EventView::Start => (state, ActionView::Receive),
            EventView::Received(record) => if record.kind != commit_kind() {
                verifier_aborts(
                    SessionError::Protocol(
                        ProtocolError::UnexpectedKind { expected: MessageKind::Commit },
                    ),
                )
            } else {
                match commit_payload_spec(record.payload) {
                    Err(e) => verifier_aborts(SessionError::Decode(e)),
                    Ok(commitment) => (
                        VerifierStateView::ChallengeSent { commitment, challenge: fresh },
                        ActionView::Send(encode_spec(ProtocolMessageView::Challenge(fresh))),
                    ),
                }
            },
            _ => verifier_aborts(stray_event_error(event)),
        },
        VerifierStateView::ChallengeSent { commitment, challenge } => match event {
            EventView::Sent => (
                VerifierStateView::AwaitingResponse { commitment, challenge },
                ActionView::Receive,
            ),
            _ => verifier_aborts(stray_event_error(event)),
        },
        VerifierStateView::AwaitingResponse { commitment, challenge } => match event {
            EventView::Received(record) => if record.kind != response_kind() {
                verifier_aborts(
                    SessionError::Protocol(
                        ProtocolError::UnexpectedKind { expected: MessageKind::Response },
                    ),
                )
            } else {
                match scalar_payload_spec(record.payload) {
                    Err(e) => verifier_aborts(SessionError::Decode(e)),
                    Ok(response) => (
                        if verification_holds(public, commitment, challenge, response) {
                            VerifierStateView::Verified
                        } else {
                            VerifierStateView::Rejected
                        },
                        ActionView::Stop,
                    ),
                }
            },
            _ => verifier_aborts(stray_event_error(event)),
        },
        _ => (state, ActionView::Stop),
    }
}

/// A record of another kind than the one that the verifier awaits ends the
/// session with a protocol error, whatever the record carries.
pub proof fn lemma_verifier_enforces_sequence(
    public: Seq<u8>,
    state: VerifierStateView,
    record: MessageView,
    fresh: nat,
)
    ensures
        state is AwaitingCommit && record.kind != commit_kind() ==> verifier_step(
            public,
            state,
            EventView::Received(record),
            fresh,
        ) == verifier_aborts(
            SessionError::Protocol(ProtocolError::UnexpectedKind { expected: MessageKind::Commit }),
        ),
        state is AwaitingResponse && record.kind != response_kind() ==> verifier_step(
            public,
            state,
            EventView::Received(record),
            fresh,
        ) == verifier_aborts(
            SessionError::Protocol(
                ProtocolError::UnexpectedKind { expected: MessageKind::Response },
            ),
        ),
        state is ChallengeSent ==> verifier_step(public, state, EventView::Received(record), fresh)
            == verifier_aborts(SessionError::Protocol(ProtocolError::OutOfSequence)),
{
}

/// A response that arrives where the commitment is awaited ends the session
/// with a protocol error.
pub proof fn lemma_response_for_commit_aborts(public: Seq<u8>, response: nat, fresh: nat)
    ensures
        verifier_step(
            public,
            VerifierStateView::AwaitingCommit,
            EventView::Received(encode_spec(ProtocolMessageView::Response(response))),
            fresh,
        ) == verifier_aborts(
            SessionError::Protocol(ProtocolError::UnexpectedKind { expected: MessageKind::Commit }),
        ),
{
    lemma_kinds_differ();
}

/// What the verifier's check decides when a response arrives in time: where
/// the commitment is `k·G` and the public element `x·G`, it accepts the
/// response `k + c·x` and no other.
pub open spec fn decides_by_honest_response(
    public: Seq<u8>,
    state: VerifierStateView,
    event: EventView,
) -> bool {
    match (state, event) {
        (
            VerifierStateView::AwaitingResponse { commitment, challenge },
            EventView::Received(record),
        ) => match scalar_payload_spec(record.payload) {
            Ok(response) => record.kind == response_kind() ==> holds_of_honest_response_only(
                public,
                commitment,
                challenge,
                response,
            ),
            Err(_) => true,
        },
        _ => true,
    }
}

/// One run of the protocol on the verifier's side.
pub struct VerifierSession {
    public: GroupElement,
    state: VerifierState,
}

/// What a verifier's session holds.
pub ghost struct VerifierView {
    pub public: Seq<u8>,
    pub state: VerifierStateView,
}

impl View for VerifierSession {
    type V = VerifierView;

    closed spec fn view(&self) -> VerifierView {
        VerifierView { public: self.public@, state: self.state@ }
    }
}

impl VerifierSession {
    /// A session that awaits the commitment of the prover whose public
    /// element is `public`.
    pub fn new(public: GroupElement) -> (session: VerifierSession)
        ensures
            session@ == (VerifierView { public: public@, state: VerifierStateView::AwaitingCommit }),
    {
        VerifierSession { public, state: VerifierState::AwaitingCommit }
    }

    /// Takes an event and says what to do next. The one transition that
    /// draws a number, the answer to a commitment, uses `fresh` as the
    /// challenge.
    pub fn on_event_with(&mut self, event: Event, fresh: Scalar) -> (action: Action)
        ensures
            final(self)@.public == old(self)@.public,
            (final(self)@.state, action@) == verifier_step(
                old(self)@.public,
                old(self)@.state,
                event@,
                fresh@,
            ),
            decides_by_honest_response(old(self)@.public, old(self)@.state, event@),
            sends_decodable(action@),
    {
        match self.state {
            VerifierState::AwaitingCommit => match event {
                Event::Start => Action::Receive,
                Event::Received(record) => {
                    if !record.has_kind(MessageKind::Commit) {
                        self.abort(
                            SessionError::Protocol(
                                ProtocolError::UnexpectedKind { expected: MessageKind::Commit },
                            ),
                        )
                    } else {
                        match record.commit_payload() {
                            Err(e) => self.abort(SessionError::Decode(e)),
                            Ok(commitment) => {
                                proof {
                                    use_type_invariant(&fresh);
                                    fresh.lemma_reduced();
                                    lemma_message_round_trip(
                                        ProtocolMessageView::Challenge(fresh@),
                                    );
                                }
                                self.state = VerifierState::ChallengeSent {
                                    commitment,
                                    challenge: fresh,
                                };
                                Action::Send(Message::challenge(&fresh))
                            },
                        }
                    }
                },
                _ => self.abort(stray_event(&event)),
            },
            VerifierState::ChallengeSent { commitment, challenge } => match event {
                Event::Sent => {
                    self.state = VerifierState::AwaitingResponse { commitment, challenge };
                    Action::Receive
                },
                _ => self.abort(stray_event(&event)),
            },
            VerifierState::AwaitingResponse { commitment, challenge } => match event {
                Event::Received(record) => {
                    if !record.has_kind(MessageKind::Response) {
                        self.abort(
                            SessionError::Protocol(
                                ProtocolError::UnexpectedKind { expected: MessageKind::Response },
                            ),
                        )
                    } else {
                        match record.scalar_payload() {
                            Err(e) => self.abort(SessionError::Decode(e)),
                            Ok(response) => {
                                if verify_response(&self.public, &commitment, &challenge, &response) {
                                    self.state = VerifierState::Verified;
                                } else {
                                    self.state = VerifierState::Rejected;
                                }
                                Action::Stop
                            },
                        }
                    }
                },
                _ => self.abort(stray_event(&event)),
            },
            _ => Action::Stop,
        }
    }

    /// Takes an event and says what to do next; the challenge to a commitment
    /// is drawn from the operating system's secure generator.
    pub fn on_event(&mut self, event: Event) -> (action: Action)
        ensures
            final(self)@.public == old(self)@.public,
            exists|fresh: nat|
                fresh < group_order() && (final(self)@.state, action@) == verifier_step(
                    old(self)@.public,
                    old(self)@.state,
                    event@,
                    fresh,
                ),
            decides_by_honest_response(old(self)@.public, old(self)@.state, event@),
            sends_decodable(action@),
    {
        let fresh = match (&self.state, &event) {
            (VerifierState::AwaitingCommit, Event::Received(_)) => Scalar::random(),
            _ => Scalar::zero(),
        };
        let ghost before = self@;
        let ghost said = event@;
        let action = self.on_event_with(event, fresh);
        assert((self@.state, action@) == verifier_step(before.public, before.state, said, fresh@));
        action
    }

    /// Whether the proof was checked, and how the check ended: `Some(true)`
    /// for a verified proof, `Some(false)` for a rejected one.
    pub fn outcome(&self) -> (outcome: Option<bool>)
        ensures
            outcome == match self@.state {
                VerifierStateView::Verified => Some(true),
                VerifierStateView::Rejected => Some(false),
                _ => None,
            },
    {
        match self.state {
            VerifierState::Verified => Some(true),
            VerifierState::Rejected => Some(false),
            _ => None,
        }
    }

    /// The error that ended the session, if one did.
    pub fn failure(&self) -> (error: Option<SessionError>)
        ensures
            error == match self@.state {
                VerifierStateView::Aborted { error } => Some(error),
                _ => None,
            },
    {
        match self.state {
            VerifierState::Aborted { error } => Some(error),
            _ => None,
        }
    }

    fn abort(&mut self, error: SessionError) -> (action: Action)
        ensures
            final(self)@.public == old(self)@.public,
            (final(self)@.state, action@) == verifier_aborts(error),
    {
        self.state = VerifierState::Aborted { error };
        Action::Stop
    }
}

} // verus!
