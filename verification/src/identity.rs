//! The node's identity: an Ed25519 keypair and the peer identity derived from it.

use vstd::prelude::*;
use crate::bytes::{bytes_copy, bytes_equal};

verus! {

/// Length in bytes of an encoded keypair: the secret half, then the public half.
pub const KEYPAIR_LENGTH: usize = 64;

/// Length in bytes of a public key.
pub const PUBLIC_KEY_LENGTH: usize = 32;

/// The public key of the Ed25519 keypair that `ed25519::Keypair::try_from_bytes`
/// decodes from the given bytes; `None` where the bytes decode to no keypair.
pub uninterp spec fn ed25519_public_key(key_bytes: Seq<u8>) -> Option<Seq<u8>>;

/// The bytes of the peer identity that `PeerId::from_public_key` derives from
/// the Ed25519 public key with the given bytes; `None` where the bytes are no
/// public key.
pub uninterp spec fn peer_identity_of(public_key: Seq<u8>) -> Option<Seq<u8>>;

/// Runs `libp2p::identity::ed25519::Keypair::try_from_bytes` on a copy of the
/// bytes and hands back the public key of the pair. The decoder refuses every
/// input that is not 64 bytes long, and a public key is 32 bytes. The decoder
/// has read the public half as a public key before it accepts the pair, and
/// deriving an identity from a public key cannot fail: so the public key of a
/// pair that decodes has an identity. Which bytes decode is not proved: the
/// answer is only given the name `ed25519_public_key`.
#[verifier::external_body]
fn decode_public_key(key_bytes: &Vec<u8>) -> (r: Option<Vec<u8>>)
    ensures
        r is Some <==> ed25519_public_key(key_bytes@) is Some,
        r matches Some(p) ==> ed25519_public_key(key_bytes@) == Some(p@),
        r is Some ==> key_bytes@.len() == KEYPAIR_LENGTH,
        r matches Some(p) ==> p@.len() == PUBLIC_KEY_LENGTH,
        r matches Some(p) ==> peer_identity_of(p@) is Some,
{
    let mut scratch = key_bytes.clone();
    match libp2p::identity::ed25519::Keypair::try_from_bytes(&mut scratch) {
        Ok(pair) => Some(pair.public().to_bytes().to_vec()),
        Err(_) => None,
    }
}

/// Runs `libp2p::PeerId::from_public_key` on the Ed25519 public key with the
/// given bytes and hands back the bytes of the identity. Nothing is proved of
/// the derivation: its answer is only given the name `peer_identity_of`.
#[verifier::external_body]
fn derive_peer(public_key: &Vec<u8>) -> (r: Option<Vec<u8>>)
    ensures
        r is Some <==> peer_identity_of(public_key@) is Some,
        r matches Some(p) ==> peer_identity_of(public_key@) == Some(p@),
{
    match libp2p::identity::ed25519::PublicKey::try_from_bytes(public_key) {
        Ok(key) => {
            let key = libp2p::identity::PublicKey::from(key);
            Some(libp2p::PeerId::from_public_key(&key).to_bytes())
        }
        Err(_) => None,
    }
}

/// Runs `libp2p::identity::ed25519::Keypair::generate` and encodes the new pair
/// with `to_bytes`. Which pair comes out is left open. Its encoding is the 64
/// bytes of the secret and of the public key derived from it, which is what
/// the decoder accepts: the bytes decode.
#[verifier::external_body]
fn generate_key_bytes() -> (r: Vec<u8>)
    ensures
        r@.len() == KEYPAIR_LENGTH,
        ed25519_public_key(r@) is Some,
{
    libp2p::identity::ed25519::Keypair::generate().to_bytes().to_vec()
}

/// Why an identity could not be had.
#[derive(Clone, Copy, Debug, PartialEq, Eq, Structural)]
pub enum IdentityError {
    /// The stored key material has the wrong length or its halves do not match.
    Corrupt,
    /// The store could not be read or written.
    IOFailure,
}

/// An opaque identifier of a peer, derived from its public key. Two identities
/// are the same peer when their bytes are equal.
#[derive(Debug, PartialEq, Eq)]
pub struct PeerIdentity {
    bytes: Vec<u8>,
}

impl View for PeerIdentity {
    type V = Seq<u8>;

    closed spec fn view(&self) -> Seq<u8> {
        self.bytes@
    }
}

impl Clone for PeerIdentity {
    fn clone(&self) -> (r: Self)
        ensures
            r@ == self@,
    {
        PeerIdentity { bytes: bytes_copy(self.bytes.as_slice()) }
    }
}

impl PeerIdentity {
    /// The identity with the given bytes.
    pub fn from_bytes(bytes: Vec<u8>) -> (r: PeerIdentity)
        ensures
            r@ == bytes@,
    {
        PeerIdentity { bytes }
    }

    /// The bytes of the identity.
    pub fn to_bytes(&self) -> (r: Vec<u8>)
        ensures
            r@ == self@,
    {
        bytes_copy(self.bytes.as_slice())
    }

    /// Whether both identify the same peer.
    pub fn same(&self, other: &PeerIdentity) -> (r: bool)
        ensures
            r == (self@ == other@),
    {
        bytes_equal(self.bytes.as_slice(), other.bytes.as_slice())
    }
}

/// What a keypair is: its encoded key material, its public key and the
/// identity it stands for.
pub struct KeypairModel {
    pub bytes: Seq<u8>,
    pub public: Seq<u8>,
    pub peer: Seq<u8>,
}

/// Whether the public key and the identity are those that belong to the key
/// material.
pub open spec fn keypair_valid(k: KeypairModel) -> bool {
    &&& k.bytes.len() == KEYPAIR_LENGTH
    &&& ed25519_public_key(k.bytes) == Some(k.public)
    &&& peer_identity_of(k.public) == Some(k.peer)
}

/// What decoding stored key material yields.
pub open spec fn decode_model(bytes: Seq<u8>) -> Result<KeypairModel, IdentityError> {
    if bytes.len() != KEYPAIR_LENGTH {
        Err(IdentityError::Corrupt)
    } else {
        match ed25519_public_key(bytes) {
            Some(public) => match peer_identity_of(public) {
                Some(peer) => Ok(KeypairModel { bytes, public, peer }),
                None => Err(IdentityError::Corrupt),
            },
            None => Err(IdentityError::Corrupt),
        }
    }
}

/// The bytes under which a keypair is stored.
pub open spec fn encode_model(k: KeypairModel) -> Seq<u8> {
    k.bytes
}

/// Storing a valid keypair and loading it again gives the same key material,
/// the same public key and the same peer identity.
pub proof fn lemma_identity_round_trip(k: KeypairModel)
    requires
        keypair_valid(k),
    ensures
        decode_model(encode_model(k)) == Ok::<KeypairModel, IdentityError>(k),
{
}

/// What decoding accepts is valid, and encodes to the bytes it was decoded from.
pub proof fn lemma_decoded_is_valid(bytes: Seq<u8>)
    ensures
        decode_model(bytes) matches Ok(k) ==> keypair_valid(k) && encode_model(k) == bytes,
{
}

/// The private and public key of this node. It cannot be copied or printed.
pub struct Keypair {
    bytes: Vec<u8>,
    public: Vec<u8>,
    peer: PeerIdentity,
}

impl View for Keypair {
    type V = KeypairModel;

    closed spec fn view(&self) -> KeypairModel {
        KeypairModel { bytes: self.bytes@, public: self.public@, peer: self.peer@ }
    }
}

impl Keypair {
    /// Whether the keypair is valid; every keypair this module hands out is.
    pub open spec fn wf(&self) -> bool {
        keypair_valid(self@)
    }

    /// Decodes stored key material. It is corrupt unless it is 64 bytes whose
    /// public half belongs to the secret half.
    pub fn decode(bytes: Vec<u8>) -> (r: Result<Keypair, IdentityError>)
        ensures
            r matches Ok(k) ==> k.wf() && decode_model(bytes@) == Ok::<KeypairModel, IdentityError>(
                k@,
            ),
            r matches Err(e) ==> decode_model(bytes@) == Err::<KeypairModel, IdentityError>(e),
            bytes@.len() == KEYPAIR_LENGTH && ed25519_public_key(bytes@) is Some ==> r is Ok,
    {
        if bytes.len() != KEYPAIR_LENGTH {
            return Err(IdentityError::Corrupt);
        }
        let public = match decode_public_key(&bytes) {
            Some(public) => public,
            None => {
                return Err(IdentityError::Corrupt);
            },
        };
        match derive_peer(&public) {
            Some(peer) => Ok(Keypair { bytes, public, peer: PeerIdentity::from_bytes(peer) }),
            None => Err(IdentityError::Corrupt),
        }
    }

    /// The bytes under which the keypair is stored.
    pub fn encode(&self) -> (r: Vec<u8>)
        ensures
            r@ == encode_model(self@),
    {
        bytes_copy(self.bytes.as_slice())
    }

    /// The public key.
    pub fn public_key(&self) -> (r: Vec<u8>)
        ensures
            r@ == self@.public,
    {
        bytes_copy(self.public.as_slice())
    }

    /// The identity under which other peers know this node.
    pub fn peer_identity(&self) -> (r: PeerIdentity)
        ensures
            r@ == self@.peer,
    {
        self.peer.clone()
    }
}

/// What was found where the identity is kept.
#[derive(Debug)]
pub enum KeyFile {
    /// Nothing is stored yet.
    Missing,
    /// Something is stored but could not be read.
    Unreadable,
    /// The stored bytes.
    Contents(Vec<u8>),
}

/// An identity ready for use.
pub struct Loaded {
    pub keypair: Keypair,
    /// Whether the keypair is new and has yet to be stored.
    pub created: bool,
}

/// Loads the stored identity, or creates one where none is stored. A loaded
/// keypair is exactly what the stored bytes decode to. A new keypair comes from
/// the system's secure random source and is handed out with `created` set, for
/// the caller to store its encoding.
pub fn load_or_create(file: KeyFile) -> (r: Result<Loaded, IdentityError>)
    ensures
        match file {
            KeyFile::Missing => r matches Ok(l) && l.created && l.keypair.wf(),
            KeyFile::Unreadable => r matches Err(e) && e == IdentityError::IOFailure,
            KeyFile::Contents(bytes) => match decode_model(bytes@) {
                Ok(k) => r matches Ok(l) && !l.created && l.keypair@ == k && l.keypair.wf(),
                Err(e) => r matches Err(f) && f == e,
            },
        },
{
    match file {
        KeyFile::Missing => match Keypair::decode(generate_key_bytes()) {
            Ok(keypair) => Ok(Loaded { keypair, created: true }),
            Err(e) => Err(e),
        },
        KeyFile::Unreadable => Err(IdentityError::IOFailure),
        KeyFile::Contents(bytes) => match Keypair::decode(bytes) {
            Ok(keypair) => Ok(Loaded { keypair, created: false }),
            Err(e) => Err(e),
        },
    }
}

/// What becomes of a loaded identity once the caller has tried to store it:
/// a new keypair that could not be stored is no identity.
pub open spec fn stored_model(
    loaded: Result<Loaded, IdentityError>,
    written: bool,
) -> Result<Loaded, IdentityError> {
    match loaded {
        Ok(l) => if l.created && !written {
            Err(IdentityError::IOFailure)
        } else {
            loaded
        },
        Err(_) => loaded,
    }
}

/// Tells what the program may go on with after it has stored a new keypair.
/// `written` says whether the encoding of a new keypair was written in full;
/// it does not count for a keypair that was loaded. A new keypair is never
/// handed on unless it was stored.
pub fn stored(loaded: Result<Loaded, IdentityError>, written: bool) -> (r: Result<
    Loaded,
    IdentityError,
>)
    ensures
        r == stored_model(loaded, written),
{
    match loaded {
        Ok(l) => if l.created && !written {
            Err(IdentityError::IOFailure)
        } else {
            Ok(l)
        },
        Err(e) => Err(e),
    }
}

} // verus!
