use curve25519_dalek::constants::RISTRETTO_BASEPOINT_POINT;
use curve25519_dalek::scalar::Scalar as DalekScalar;
use zk_schnorr_lib::{
    point_to_hex, run_exchange, scalar_from_hex, scalar_to_hex, Action, Event, KeyPair, Message,
    ProverSession, Scalar, VerifierSession,
};

const NONCE: [u8; 32] = [
    1, 2, 3, 4, 5, 6, 7, 8, 9, 10, 11, 12, 13, 14, 15, 16, 17, 18, 19, 20, 21, 22, 23, 24, 25, 26,
    27, 28, 29, 30, 31, 32,
];

const CHALLENGE: [u8; 32] = [0xaa; 32];

const RESPONSE_HEX: &str = "9f92cd5e19db30b34acebc000a643ca39f7b3a284d546cf53e29bcc29488fb0e";

fn sent(action: Action) -> Message {
    match action {
        Action::Send(message) => message,
        other => panic!("expected a record to send, got {:?}", other),
    }
}

/// Hands a response to a verifier that has challenged the demo prover's
/// commitment, and gives the verifier's decision.
fn decide(response: Message) -> Option<bool> {
    let keypair = KeyPair::from_seed(b"demo-prover-secret");
    let mut prover = ProverSession::new(KeyPair::from_seed(b"demo-prover-secret"));
    let mut verifier = VerifierSession::new(keypair.public());
    let commit = sent(prover.on_event_with(Event::Start, Scalar::from_bytes_mod_order(NONCE)));
    let challenge = Scalar::from_bytes_mod_order(CHALLENGE);
    sent(verifier.on_event_with(Event::Received(commit), challenge));
    verifier.on_event(Event::Sent);
    verifier.on_event(Event::Received(response));
    verifier.outcome()
}

#[test]
fn the_demo_exchange_is_verified() {
    let keypair = KeyPair::from_seed(b"demo-prover-secret");
    let public = keypair.public();
    let nonce = Scalar::from_bytes_mod_order(NONCE);
    let challenge = Scalar::from_bytes_mod_order(CHALLENGE);
    let transcript = run_exchange(keypair, nonce, challenge);

    let x = DalekScalar::hash_from_bytes::<sha2::Sha512>(b"demo-prover-secret");
    let k = DalekScalar::from_bytes_mod_order(NONCE);
    let c = DalekScalar::from_bytes_mod_order(CHALLENGE);
    let commitment = RISTRETTO_BASEPOINT_POINT * k;
    let s = k + c * x;

    assert_eq!(transcript.commit.kind, "commit");
    assert_eq!(transcript.commit.payload, hex::encode(commitment.compress().to_bytes()));
    assert_eq!(transcript.challenge.kind, "challenge");
    assert_eq!(
        transcript.challenge.payload,
        "68631009a3cbf2394b8afe4cf8e7f4d9a9aaaaaaaaaaaaaaaaaaaaaaaaaaaa0a"
    );
    assert_eq!(transcript.response.kind, "response");
    assert_eq!(transcript.response.payload, RESPONSE_HEX);
    assert_eq!(transcript.response.payload, hex::encode(s.to_bytes()));
    assert!(transcript.verified);

    let left = RISTRETTO_BASEPOINT_POINT * s;
    let right = commitment + (RISTRETTO_BASEPOINT_POINT * x) * c;
    assert_eq!(left, right);
    assert_eq!(point_to_hex(&public), hex::encode((RISTRETTO_BASEPOINT_POINT * x).compress().to_bytes()));
}

#[test]
fn the_demo_response_is_accepted_when_handed_over_by_hand() {
    let response = Message { kind: "response".to_string(), payload: RESPONSE_HEX.to_string() };
    assert_eq!(decide(response), Some(true));
}

#[test]
fn a_response_with_one_bit_flipped_is_rejected() {
    let honest = scalar_from_hex(RESPONSE_HEX).unwrap().to_bytes();
    for (byte, bit) in [(0usize, 0u8), (0, 7), (13, 3), (31, 0), (31, 3)] {
        let mut flipped = honest;
        flipped[byte] ^= 1 << bit;
        let response =
            Message { kind: "response".to_string(), payload: hex::encode(flipped) };
        assert_eq!(decide(response), Some(false));
    }
}

#[test]
fn a_response_made_without_the_secret_is_rejected() {
    for _ in 0..8 {
        let guess = Scalar::random();
        assert_eq!(decide(Message::response(&guess)), Some(false));
    }
    let nonce_alone = Scalar::from_bytes_mod_order(NONCE);
    assert_eq!(decide(Message::response(&nonce_alone)), Some(false));
    assert_eq!(decide(Message::response(&Scalar::zero())), Some(false));
}

#[test]
fn every_honest_exchange_is_verified() {
    let seeds: [&[u8]; 4] = [b"", b"a", b"demo-prover-secret", b"another key"];
    for seed in seeds {
        for round in 0u8..4 {
            let nonce = Scalar::hash_from_bytes(&[round, 1]);
            let challenge = Scalar::hash_from_bytes(&[round, 2]);
            let transcript = run_exchange(KeyPair::from_seed(seed), nonce, challenge);
            assert!(transcript.verified);
            assert_eq!(transcript.challenge.payload, scalar_to_hex(&challenge));
        }
    }
}

#[test]
fn honest_exchanges_with_edge_scalars_are_verified() {
    let top = Scalar::from_bytes_mod_order([
        0xec, 0xd3, 0xf5, 0x5c, 0x1a, 0x63, 0x12, 0x58, 0xd6, 0x9c, 0xf7, 0xa2, 0xde, 0xf9, 0xde,
        0x14, 0, 0, 0, 0, 0, 0, 0, 0, 0, 0, 0, 0, 0, 0, 0, 0x10,
    ]);
    let zero = Scalar::zero();
    for secret in [zero, top] {
        for nonce in [zero, top] {
            for challenge in [zero, top] {
                let transcript = run_exchange(KeyPair::from_secret(secret), nonce, challenge);
                assert!(transcript.verified);
            }
        }
    }
}

#[test]
fn an_exchange_with_drawn_numbers_is_verified() {
    let keypair = KeyPair::from_seed(b"demo-prover-secret");
    let mut verifier = VerifierSession::new(keypair.public());
    let mut prover = ProverSession::new(keypair);

    assert!(matches!(verifier.on_event(Event::Start), Action::Receive));
    let commit = sent(prover.on_event(Event::Start));
    assert!(matches!(prover.on_event(Event::Sent), Action::Receive));
    let challenge = sent(verifier.on_event(Event::Received(commit)));
    assert!(matches!(verifier.on_event(Event::Sent), Action::Receive));
    let response = sent(prover.on_event(Event::Received(challenge)));
    assert!(matches!(prover.on_event(Event::Sent), Action::Stop));
    assert!(matches!(verifier.on_event(Event::Received(response)), Action::Stop));

    assert!(prover.is_done());
    assert_eq!(verifier.outcome(), Some(true));
}

#[test]
fn a_prover_with_another_secret_is_rejected() {
    let mut verifier = VerifierSession::new(KeyPair::from_seed(b"demo-prover-secret").public());
    let mut prover = ProverSession::new(KeyPair::from_seed(b"not the secret"));
    let commit = sent(prover.on_event(Event::Start));
    let challenge = sent(verifier.on_event(Event::Received(commit)));
    verifier.on_event(Event::Sent);
    let response = sent(prover.on_event(Event::Received(challenge)));
    verifier.on_event(Event::Received(response));
    assert_eq!(verifier.outcome(), Some(false));
    assert_eq!(verifier.failure(), None);
}
