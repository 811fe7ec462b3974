use cylinder::secp256k1::Secp256k1Context;
use cylinder::{Context, PrivateKey, PublicKey, Signature, SigningError, VerificationError};
use vstd::prelude::*;

verus! {

#[verifier::external_type_specification]
#[verifier::external_body]
pub struct ExVerificationError(VerificationError);

#[verifier::external_type_specification]
#[verifier::external_body]
pub struct ExSigningError(SigningError);

/// What secp256k1 verification says of a signature over a message under a public key:
/// `Some(valid)`, or `None` where the signature or key cannot be read.
pub uninterp spec fn secp256k1_validity(message: Seq<u8>, signature: Seq<u8>, public_key: Seq<u8>) -> Option<bool>;

/// The secp256k1 signature of a message under a private key, or `None` where the key is
/// unusable.
pub uninterp spec fn secp256k1_signature(private_key: Seq<u8>, message: Seq<u8>) -> Option<Seq<u8>>;

/// Relies on cylinder's secp256k1 verifier (`Verifier::verify`): it checks a compact signature
/// over the SHA-256 digest of the message; the outcome depends on the three byte strings alone.
#[verifier::external_body]
fn secp256k1_verify(message: &Vec<u8>, signature: &Vec<u8>, public_key: &Vec<u8>) -> (r: Result<
    bool,
    VerificationError,
>)
    ensures
        match r {
            Ok(valid) => secp256k1_validity(message@, signature@, public_key@) == Some(valid),
            Err(_) => secp256k1_validity(message@, signature@, public_key@) is None,
        },
{
    let verifier = Context::new_verifier(&Secp256k1Context::new());
    verifier.verify(
        message.as_slice(),
        &Signature::new(signature.clone()),
        &PublicKey::new(public_key.clone()),
    )
}

/// Relies on cylinder's secp256k1 signer (`Signer::sign`): it signs the SHA-256 digest of the
/// message with RFC 6979 nonces, so the signature depends on the key and the message alone.
#[verifier::external_body]
fn secp256k1_sign(private_key: &Vec<u8>, message: &Vec<u8>) -> (r: Result<Vec<u8>, SigningError>)
    ensures
        match r {
            Ok(sig) => secp256k1_signature(private_key@, message@) == Some(sig@),
            Err(_) => secp256k1_signature(private_key@, message@) is None,
        },
{
    let signer = Secp256k1Context::new().new_signer(PrivateKey::new(private_key.clone()));
    signer.sign(message.as_slice()).map(|sig| sig.take_bytes())
}

/// Why an authorization handshake failed.
#[derive(Clone, Copy, Debug, PartialEq, Eq, Structural)]
pub enum AuthFailure {
    UnknownIdentity,
    BadSignature,
    Timeout,
    ProtocolViolation,
}

/// The identities that this node accepts, with their public keys.
pub struct Keyring {
    keys: Vec<(String, Vec<u8>)>,
}

/// The public key of `identity` in a list of registrations: the last one for it.
pub open spec fn key_in(keys: Seq<(String, Vec<u8>)>, identity: Seq<char>) -> Option<Seq<u8>>
    decreases keys.len(),
{
    if keys.len() == 0 {
        None
    } else if keys.last().0@ == identity {
        Some(keys.last().1@)
    } else {
        key_in(keys.drop_last(), identity)
    }
}

impl Keyring {
    pub closed spec fn key_of(&self, identity: Seq<char>) -> Option<Seq<u8>> {
        key_in(self.keys@, identity)
    }

    /// A keyring that accepts nobody.
    pub fn new() -> (r: Self)
        ensures
            forall|id: Seq<char>| #[trigger] r.key_of(id) is None,
    {
        Keyring { keys: Vec::new() }
    }

    /// Accepts `identity`, with `public_key`; replaces an earlier key for it.
    pub fn add_identity(&mut self, identity: String, public_key: Vec<u8>)
        ensures
            final(self).key_of(identity@) == Some(public_key@),
            forall|id: Seq<char>| id != identity@ ==> #[trigger] final(self).key_of(id) == old(self).key_of(id),
    {
        let ghost old_k = self.keys@;
        self.keys.push((identity, public_key));
        assert(self.keys@.drop_last() =~= old_k);
    }

    /// The public key of an identity, if it is accepted.
    pub fn public_key(&self, identity: &String) -> (r: Option<Vec<u8>>)
        ensures
            match r {
                Some(k) => self.key_of(identity@) == Some(k@),
                None => self.key_of(identity@) is None,
            },
    {
        let mut k: usize = self.keys.len();
        assert(self.keys@.subrange(0, k as int) =~= self.keys@);
        while k > 0
            invariant
                k <= self.keys@.len(),
                key_in(self.keys@, identity@) == key_in(self.keys@.subrange(0, k as int), identity@),
            decreases k,
        {
            assert(self.keys@.subrange(0, k as int).drop_last() =~= self.keys@.subrange(0, k - 1));
            if self.keys[k - 1].0 == *identity {
                return Some(self.keys[k - 1].1.clone());
            }
            k = k - 1;
        }
        None
    }
}

/// The state of the handshake on the accepting side of a connection.
pub enum AuthState {
    AwaitingConnectRequest,
    AwaitingChallengeResponse { identity: String, public_key: Vec<u8>, nonce: Vec<u8> },
    Authorized { identity: String },
    Failed(AuthFailure),
}

/// A handshake message received from the other side, or the expiry of the handshake's time.
pub enum AuthEvent {
    ConnectRequest { identity: String },
    ChallengeResponse { signature: Vec<u8> },
    Timeout,
}

/// A handshake message to send to the other side.
pub enum AuthReply {
    Challenge { nonce: Vec<u8> },
    Complete,
    Failed(AuthFailure),
}

/// Whether the handshake has ended, one way or the other.
pub open spec fn auth_finished(s: AuthState) -> bool {
    s is Authorized || s is Failed
}

/// Decides a challenge response from the outcome of signature verification: only a valid signature
/// authorizes the connection.
pub fn conclude_challenge(identity: String, validity: Option<bool>) -> (r: (AuthState, AuthReply))
    ensures
        validity == Some(true) ==> match r {
            (AuthState::Authorized { identity: id }, AuthReply::Complete) => id@ == identity@,
            _ => false,
        },
        validity != Some(true) ==> r matches (
            AuthState::Failed(AuthFailure::BadSignature),
            AuthReply::Failed(AuthFailure::BadSignature),
        ),
{
    match validity {
        Some(true) => (AuthState::Authorized { identity }, AuthReply::Complete),
        _ => (
            AuthState::Failed(AuthFailure::BadSignature),
            AuthReply::Failed(AuthFailure::BadSignature),
        ),
    }
}

/// Advances the accepting side of the handshake by one event. `nonce` is the fresh random
/// challenge to use if one is sent. A finished handshake ignores further events.
pub fn authorize_step(keyring: &Keyring, state: AuthState, event: AuthEvent, nonce: Vec<u8>) -> (r:
    (AuthState, Option<AuthReply>))
    ensures
        auth_finished(state) ==> r.1 is None && r.0 == state,
        !auth_finished(state) && event is Timeout ==> r matches (
            AuthState::Failed(AuthFailure::Timeout),
            Some(AuthReply::Failed(AuthFailure::Timeout)),
        ),
        match (state, event) {
            (AuthState::AwaitingConnectRequest, AuthEvent::ConnectRequest { identity }) => match keyring.key_of(
                identity@,
            ) {
                None => r matches (
                    AuthState::Failed(AuthFailure::UnknownIdentity),
                    Some(AuthReply::Failed(AuthFailure::UnknownIdentity)),
                ),
                Some(key) => match r {
                    (
                        AuthState::AwaitingChallengeResponse { identity: id, public_key: k, nonce: n },
                        Some(AuthReply::Challenge { nonce: sent }),
                    ) => id@ == identity@ && k@ == key && n@ == nonce@ && sent@ == nonce@,
                    _ => false,
                },
            },
            (
                AuthState::AwaitingChallengeResponse { identity, public_key, nonce: n },
                AuthEvent::ChallengeResponse { signature },
            ) => if secp256k1_validity(n@, signature@, public_key@) == Some(true) {
                match r {
                    (AuthState::Authorized { identity: id }, Some(AuthReply::Complete)) => id@
                        == identity@,
                    _ => false,
                }
            } else {
                r matches (
                    AuthState::Failed(AuthFailure::BadSignature),
                    Some(AuthReply::Failed(AuthFailure::BadSignature)),
                )
            },
            (AuthState::AwaitingConnectRequest, AuthEvent::ChallengeResponse { .. }) => r matches (
                AuthState::Failed(AuthFailure::ProtocolViolation),
                Some(AuthReply::Failed(AuthFailure::ProtocolViolation)),
            ),
            (AuthState::AwaitingChallengeResponse { .. }, AuthEvent::ConnectRequest { .. }) => r matches (
                AuthState::Failed(AuthFailure::ProtocolViolation),
                Some(AuthReply::Failed(AuthFailure::ProtocolViolation)),
            ),
            _ => true,
        },
{
    match state {
        AuthState::Authorized { .. } | AuthState::Failed(_) => (state, None),
        AuthState::AwaitingConnectRequest => match event {
            AuthEvent::ConnectRequest { identity } => match keyring.public_key(&identity) {
                None => (
                    AuthState::Failed(AuthFailure::UnknownIdentity),
                    Some(AuthReply::Failed(AuthFailure::UnknownIdentity)),
                ),
                Some(public_key) => {
                    let sent = nonce.clone();
                    (
                        AuthState::AwaitingChallengeResponse { identity, public_key, nonce },
                        Some(AuthReply::Challenge { nonce: sent }),
                    )
                },
            },
            AuthEvent::ChallengeResponse { .. } => (
                AuthState::Failed(AuthFailure::ProtocolViolation),
                Some(AuthReply::Failed(AuthFailure::ProtocolViolation)),
            ),
            AuthEvent::Timeout => (
                AuthState::Failed(AuthFailure::Timeout),
                Some(AuthReply::Failed(AuthFailure::Timeout)),
            ),
        },
        AuthState::AwaitingChallengeResponse { identity, public_key, nonce: n } => match event {
            AuthEvent::ChallengeResponse { signature } => {
                let validity = match secp256k1_verify(&n, &signature, &public_key) {
                    Ok(valid) => Some(valid),
                    Err(_) => None,
                };
                let (next, reply) = conclude_challenge(identity, validity);
                (next, Some(reply))
            },
            AuthEvent::ConnectRequest { .. } => (
                AuthState::Failed(AuthFailure::ProtocolViolation),
                Some(AuthReply::Failed(AuthFailure::ProtocolViolation)),
            ),
            AuthEvent::Timeout => (
                AuthState::Failed(AuthFailure::Timeout),
                Some(AuthReply::Failed(AuthFailure::Timeout)),
            ),
        },
    }
}

/// Answers a challenge on the connecting side: the nonce signed with this node's private key.
/// `None` where the key cannot sign.
pub fn answer_challenge(private_key: &Vec<u8>, nonce: &Vec<u8>) -> (r: Option<Vec<u8>>)
    ensures
        match r {
            Some(sig) => secp256k1_signature(private_key@, nonce@) == Some(sig@),
            None => secp256k1_signature(private_key@, nonce@) is None,
        },
{
    match secp256k1_sign(private_key, nonce) {
        Ok(sig) => Some(sig),
        Err(_) => None,
    }
}

} // verus!
