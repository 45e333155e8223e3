//! The prover's side of a session: commit to a nonce, then answer the
//! verifier's challenge.

use crate::group::{basepoint, ristretto_mul, GroupElement};
use crate::keys::KeyPair;
use crate::message::{
    challenge_kind, encode_spec, lemma_message_round_trip, scalar_payload_spec, Message,
    MessageKind, MessageView, ProtocolMessageView,
};
use crate::scalar::{group_order, Scalar};
use crate::session::{
    sends_decodable, stray_event, stray_event_error, Action, ActionView, Event, EventView,
    ProtocolError, SessionError,
};
use vstd::prelude::*;

verus! {

/// Where the prover stands. The state holds the nonce and so has no
/// printable form.
#[derive(Clone, Copy)]
pub enum ProverState {
    /// Nothing has been sent.
    Init,
    /// The commitment to `nonce` has been handed out; the challenge is awaited.
    CommitSent { nonce: Scalar },
    /// The response has been handed out.
    Done,
    /// The session failed.
    Aborted { error: SessionError },
}

/// Where the prover stands, with the nonce as a number.
pub ghost enum ProverStateView {
    Init,
    CommitSent { nonce: nat },
    Done,
    Aborted { error: SessionError },
}

impl View for ProverState {
    type V = ProverStateView;

    open spec fn view(&self) -> ProverStateView {
        match *self {
            ProverState::Init => ProverStateView::Init,
            ProverState::CommitSent { nonce } => ProverStateView::CommitSent { nonce: nonce@ },
            ProverState::Done => ProverStateView::Done,
            ProverState::Aborted { error } => ProverStateView::Aborted { error },
        }
    }
}

/// The response to a challenge: `k + c·x` modulo the group's order.
pub open spec fn response_value(nonce: nat, challenge: nat, secret: nat) -> nat {
    (nonce + challenge * secret) % group_order()
}

/// The prover's transition: the state and the action that follow from a
/// state and an event. `fresh` is the nonce that a beginning session draws.
pub open spec fn prover_step(
    secret: nat,
    state: ProverStateView,
    event: EventView,
    fresh: nat,
) -> (ProverStateView, ActionView) {
    match state {
        ProverStateView::Init => match event {
            EventView::Start => (
                ProverStateView::CommitSent { nonce: fresh },
                ActionView::Send(
                    encode_spec(ProtocolMessageView::Commit(ristretto_mul(basepoint(), fresh))),
                ),
            ),
            _ => (ProverStateView::Aborted { error: stray_event_error(event) }, ActionView::Stop),
        },
        ProverStateView::CommitSent { nonce } => match event {
            EventView::Sent => (state, ActionView::Receive),
            EventView::Received(record) => if record.kind != challenge_kind() {
                (
                    ProverStateView::Aborted {
                        error: SessionError::Protocol(
                            ProtocolError::UnexpectedKind { expected: MessageKind::Challenge },
                        ),
                    },
                    ActionView::Stop,
                )
            } else {
                match scalar_payload_spec(record.payload) {
                    Err(e) => (
                        ProverStateView::Aborted { error: SessionError::Decode(e) },
                        ActionView::Stop,
                    ),
                    Ok(challenge) => (
                        ProverStateView::Done,
                        ActionView::Send(
                            encode_spec(
                                ProtocolMessageView::Response(
                                    response_value(nonce, challenge, secret),
                                ),
                            ),
                        ),
                    ),
                }
            },
            _ => (ProverStateView::Aborted { error: stray_event_error(event) }, ActionView::Stop),
        },
        ProverStateView::Done => (state, ActionView::Stop),
        ProverStateView::Aborted { error } => (state, ActionView::Stop),
    }
}

/// A record of another kind than a challenge, arriving where the challenge
/// is awaited, ends the session with a protocol error.
pub proof fn lemma_prover_enforces_sequence(
    secret: nat,
    nonce: nat,
    record: MessageView,
    fresh: nat,
)
    requires
        record.kind != challenge_kind(),
    ensures
        prover_step(
            secret,
            ProverStateView::CommitSent { nonce },
            EventView::Received(record),
            fresh,
        ) == (
            ProverStateView::Aborted {
                error: SessionError::Protocol(
                    ProtocolError::UnexpectedKind { expected: MessageKind::Challenge },
                ),
            },
            ActionView::Stop,
        ),
{
}

/// The response `k + c·x` to the challenge `c`, for the nonce `k` and the
/// secret `x`.
pub fn respond(nonce: &Scalar, challenge: &Scalar, secret: &Scalar) -> (response: Scalar)
    ensures
        response@ == response_value(nonce@, challenge@, secret@),
{
    let product = challenge.times(secret);
    let response = nonce.plus(&product);
    proof {
        vstd::arithmetic::div_mod::lemma_add_mod_noop_right(
            nonce@ as int,
            (challenge@ * secret@) as int,
            group_order() as int,
        );
    }
    response
}

/// One run of the protocol on the prover's side.
pub struct ProverSession {
    keypair: KeyPair,
    state: ProverState,
}

/// What a prover's session holds.
pub ghost struct ProverView {
    pub secret: nat,
    pub state: ProverStateView,
}

impl View for ProverSession {
    type V = ProverView;

    closed spec fn view(&self) -> ProverView {
        ProverView { secret: self.keypair@.secret, state: self.state@ }
    }
}

impl ProverSession {
    /// A session that has not begun.
    pub fn new(keypair: KeyPair) -> (session: ProverSession)
        ensures
            session@ == (ProverView { secret: keypair@.secret, state: ProverStateView::Init }),
    {
        ProverSession { keypair, state: ProverState::Init }
    }

    /// Takes an event and says what to do next. The one transition that
    /// draws a number, the beginning, uses `fresh` as the nonce.
    pub fn on_event_with(&mut self, event: Event, fresh: Scalar) -> (action: Action)
        ensures
            final(self)@.secret == old(self)@.secret,
            (final(self)@.state, action@) == prover_step(
                old(self)@.secret,
                old(self)@.state,
                event@,
                fresh@,
            ),
            sends_decodable(action@),
    {
        match self.state {
            ProverState::Init => match event {
                Event::Start => {
                    let commitment = GroupElement::generator().times(&fresh);
                    proof {
                        use_type_invariant(&commitment);
                        commitment.lemma_valid();
                        lemma_message_round_trip(ProtocolMessageView::Commit(commitment@));
                    }
                    self.state = ProverState::CommitSent { nonce: fresh };
                    Action::Send(Message::commit(&commitment))
                },
                _ => {
                    self.state = ProverState::Aborted { error: stray_event(&event) };
                    Action::Stop
                },
            },
            ProverState::CommitSent { nonce } => match event {
                Event::Sent => Action::Receive,
                Event::Received(record) => {
                    if !record.has_kind(MessageKind::Challenge) {
                        self.state = ProverState::Aborted {
                            error: SessionError::Protocol(
                                ProtocolError::UnexpectedKind { expected: MessageKind::Challenge },
                            ),
                        };
                        Action::Stop
                    } else {
                        match record.scalar_payload() {
                            Err(e) => {
                                self.state = ProverState::Aborted {
                                    error: SessionError::Decode(e),
                                };
                                Action::Stop
                            },
                            Ok(challenge) => {
                                let secret = self.keypair.secret();
                                let response = respond(&nonce, &challenge, &secret);
                                proof {
                                    lemma_message_round_trip(
                                        ProtocolMessageView::Response(response@),
                                    );
                                }
                                self.state = ProverState::Done;
                                Action::Send(Message::response(&response))
                            },
                        }
                    }
                },
                _ => {
                    self.state = ProverState::Aborted { error: stray_event(&event) };
                    Action::Stop
                },
            },
            ProverState::Done => Action::Stop,
            ProverState::Aborted { error } => Action::Stop,
        }
    }

    /// Takes an event and says what to do next; a beginning session draws its
    /// nonce from the operating system's secure generator.
    pub fn on_event(&mut self, event: Event) -> (action: Action)
        ensures
            final(self)@.secret == old(self)@.secret,
            exists|fresh: nat|
                fresh < group_order() && (final(self)@.state, action@) == prover_step(
                    old(self)@.secret,
                    old(self)@.state,
                    event@,
                    fresh,
                ),
            sends_decodable(action@),
    {
        let fresh = match (&self.state, &event) {
            (ProverState::Init, Event::Start) => Scalar::random(),
            _ => Scalar::zero(),
        };
        let ghost before = self@;
        let ghost said = event@;
        let action = self.on_event_with(event, fresh);
        assert((self@.state, action@) == prover_step(before.secret, before.state, said, fresh@));
        action
    }

    /// Whether the response has been handed out.
    pub fn is_done(&self) -> (done: bool)
        ensures
            done == (self@.state is Done),
    {
        match self.state {
            ProverState::Done => true,
            _ => false,
        }
    }

    /// The error that ended the session, if one did.
    pub fn failure(&self) -> (error: Option<SessionError>)
        ensures
            error == match self@.state {
                ProverStateView::Aborted { error } => Some(error),
                _ => None,
            },
    {
        match self.state {
            ProverState::Aborted { error } => Some(error),
            _ => None,
        }
    }
}

} // verus!
