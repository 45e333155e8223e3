//! A whole session in memory: an honest prover and a verifier, with each
//! record handed from one to the other as the transport would.

use crate::base16::lemma_hex_round_trip;
use crate::group::{basepoint, ristretto_mul};
use crate::keys::KeyPair;
use crate::message::{
    encode_spec, lemma_kinds_differ, lemma_scalar_hex_round_trip, Message, ProtocolMessageView,
};
use crate::prover::{response_value, ProverSession};
use crate::scalar::Scalar;
use crate::session::{Action, Event};
use crate::verification::VerifierSession;
use vstd::pervasive::unreached;
use vstd::prelude::*;

verus! {

/// What crossed the wire in one session, and how the verifier's check ended.
pub struct Transcript {
    pub commit: Message,
    pub challenge: Message,
    pub response: Message,
    pub verified: bool,
}

/// Runs the protocol between a prover that holds `keypair` and a verifier
/// that knows its public element, with the given nonce and challenge. The
/// three records are those of the protocol, and the verifier accepts:
/// an honest prover always convinces the verifier.
pub fn run_exchange(keypair: KeyPair, nonce: Scalar, challenge: Scalar) -> (transcript: Transcript)
    ensures
        transcript.commit@ == encode_spec(
            ProtocolMessageView::Commit(ristretto_mul(basepoint(), nonce@)),
        ),
        transcript.challenge@ == encode_spec(ProtocolMessageView::Challenge(challenge@)),
        transcript.response@ == encode_spec(
            ProtocolMessageView::Response(response_value(nonce@, challenge@, keypair@.secret)),
        ),
        transcript.verified,
{
    let public = keypair.public();
    let ghost secret = keypair@.secret;
    let ghost commitment = ristretto_mul(basepoint(), nonce@);
    let ghost answer = response_value(nonce@, challenge@, secret);
    proof {
        use_type_invariant(&nonce);
        use_type_invariant(&challenge);
        nonce.lemma_reduced();
        challenge.lemma_reduced();
        lemma_kinds_differ();
        lemma_hex_round_trip(commitment);
        lemma_scalar_hex_round_trip(challenge@);
        lemma_scalar_hex_round_trip(answer);
    }
    let mut prover = ProverSession::new(keypair);
    let mut verifier = VerifierSession::new(public);

    let commit = match prover.on_event_with(Event::Start, nonce) {
        Action::Send(record) => record,
        _ => unreached(),
    };
    let _ = prover.on_event_with(Event::Sent, nonce);
    let _ = verifier.on_event_with(Event::Start, challenge);
    let challenge_record = match verifier.on_event_with(
        Event::Received(commit.clone()),
        challenge,
    ) {
        Action::Send(record) => record,
        _ => unreached(),
    };
    let _ = verifier.on_event_with(Event::Sent, challenge);
    let response = match prover.on_event_with(Event::Received(challenge_record.clone()), nonce) {
        Action::Send(record) => record,
        _ => unreached(),
    };
    let _ = verifier.on_event_with(Event::Received(response.clone()), challenge);
    let verified = match verifier.outcome() {
        Some(accepted) => accepted,
        None => unreached(),
    };
    Transcript { commit, challenge: challenge_record, response, verified }
}

} // verus!
