//! Keypairs, transaction envelopes and signing.
use vstd::prelude::*;

use crate::crypto::ed25519_accepts;
use crate::crypto::ed25519_public_of;
use crate::crypto::ed25519_signature_of;
use crate::crypto::public_key_of;
use crate::crypto::sign_message;
use crate::crypto::signature_accepted;
use crate::instruction::AccountMeta;
use crate::message::message_bytes;
use crate::message::Message;
use crate::types::Address;

verus! {

/// An Ed25519 keypair: a 32-byte secret and the public key derived from it.
#[derive(Clone, Copy, Debug)]
pub struct Keypair {
    secret: [u8; 32],
    public: Address,
}

impl View for Keypair {
    /// The secret key bytes and the public key bytes.
    type V = (Seq<u8>, Seq<u8>);

    closed spec fn view(&self) -> (Seq<u8>, Seq<u8>) {
        (self.secret@, self.public@)
    }
}

/// Why bytes could not be read as a keypair.
#[derive(Clone, Copy, Debug, PartialEq, Eq, Structural)]
pub enum KeypairError {
    /// Not 64 bytes, or the public half is not the key of the secret half.
    Corrupt,
}

impl Keypair {
    #[verifier::type_invariant]
    spec fn public_matches_secret(&self) -> bool {
        self.public@ == ed25519_public_of(self.secret@)
    }

    /// The keypair of a 32-byte secret key.
    pub fn from_secret(secret: [u8; 32]) -> (r: Keypair)
        ensures
            r@.0 == secret@,
            r@.1 == ed25519_public_of(secret@),
    {
        let public = Address { bytes: public_key_of(&secret) };
        Keypair { secret, public }
    }

    /// Reads the 64-byte form: the secret key, then the public key.
    pub fn from_bytes(bytes: &Vec<u8>) -> (r: Result<Keypair, KeypairError>)
        ensures
            r is Ok <==> bytes@.len() == 64 && bytes@.subrange(32, 64) == ed25519_public_of(
                bytes@.subrange(0, 32),
            ),
            r is Ok ==> r->Ok_0@.0 == bytes@.subrange(0, 32) && r->Ok_0@.1 == bytes@.subrange(
                32,
                64,
            ),
            r is Err ==> r == Err::<Keypair, KeypairError>(KeypairError::Corrupt),
    {
        if bytes.len() != 64 {
            return Err(KeypairError::Corrupt);
        }
        let mut secret = [0u8; 32];
        let mut given = [0u8; 32];
        let mut i: usize = 0;
        while i < 32
            invariant
                0 <= i <= 32,
                bytes@.len() == 64,
                forall|j: int| 0 <= j < i ==> secret@[j] == bytes@[j] && given@[j] == bytes@[j + 32],
            decreases 32 - i,
        {
            secret[i] = bytes[i];
            given[i] = bytes[i + 32];
            i = i + 1;
        }
        assert(secret@ =~= bytes@.subrange(0, 32));
        assert(given@ =~= bytes@.subrange(32, 64));
        let kp = Keypair::from_secret(secret);
        let given = Address { bytes: given };
        if kp.public.same_as(&given) {
            Ok(kp)
        } else {
            Err(KeypairError::Corrupt)
        }
    }

    /// The 64-byte form: the secret key, then the public key.
    pub fn to_bytes(&self) -> (r: Vec<u8>)
        ensures
            r@ == self@.0 + self@.1,
    {
        let mut out: Vec<u8> = Vec::new();
        crate::bytes::push_all(&mut out, self.secret.as_slice());
        crate::bytes::push_all(&mut out, self.public.bytes.as_slice());
        out
    }

    /// The public key, as an address.
    pub fn pubkey(&self) -> (r: Address)
        ensures
            r@ == self@.1,
            r@ == ed25519_public_of(self@.0),
    {
        proof {
            use_type_invariant(self);
        }
        self.public
    }
}

/// The addresses that must sign a message, in account order.
pub open spec fn signers_of(keys: Seq<AccountMeta>) -> Seq<Seq<u8>>
    decreases keys.len(),
{
    if keys.len() == 0 {
        Seq::empty()
    } else if keys.last().is_signer {
        signers_of(keys.drop_last()).push(keys.last().address@)
    } else {
        signers_of(keys.drop_last())
    }
}

/// The addresses that must sign `m`, in account order.
pub open spec fn required_signers(m: Message) -> Seq<Seq<u8>> {
    signers_of(m.account_keys@)
}

/// `k` is the first keypair in `kps` whose public key is `a`.
pub open spec fn first_keypair_for(kps: Seq<Keypair>, a: Seq<u8>, k: int) -> bool {
    &&& 0 <= k < kps.len()
    &&& kps[k]@.1 == a
    &&& forall|l: int| 0 <= l < k ==> kps[l]@.1 != a
}

/// Some keypair in `kps` has public key `a`.
pub open spec fn has_keypair(kps: Seq<Keypair>, a: Seq<u8>) -> bool {
    exists|k: int| 0 <= k < kps.len() && kps[k]@.1 == a
}

/// `sig` is the signature of `bytes` by the first keypair for `a`.
pub open spec fn signed_by(kps: Seq<Keypair>, a: Seq<u8>, bytes: Seq<u8>, sig: Seq<u8>) -> bool {
    exists|k: int| first_keypair_for(kps, a, k) && sig == ed25519_signature_of(kps[k]@.0, bytes)
}

/// A message together with one signature slot per required signer, in the
/// order of `required_signers`.
#[derive(Debug)]
pub struct Envelope {
    pub message: Message,
    pub signatures: Vec<Option<[u8; 64]>>,
}

/// How far an envelope has been signed.
#[derive(Clone, Copy, Debug, PartialEq, Eq, Structural)]
pub enum EnvelopeStatus {
    Unsigned,
    PartiallySigned,
    FullySigned,
}

/// Why signing failed, with the address concerned.
#[derive(Clone, Copy, Debug)]
pub enum SignError {
    /// A required signer had no keypair.
    MissingSigner(Address),
    /// A keypair belongs to no required signer.
    UnexpectedSigner(Address),
}

/// Why an envelope cannot be submitted.
#[derive(Clone, Copy, Debug, PartialEq, Eq, Structural)]
pub enum EnvelopeError {
    IncompleteSignatures,
}

/// Every slot is aligned with a required signer and filled.
pub open spec fn all_slots_filled(e: Envelope) -> bool {
    &&& e.signatures@.len() == required_signers(e.message).len()
    &&& forall|i: int| 0 <= i < e.signatures@.len() ==> e.signatures@[i] is Some
}

/// The completeness state of an envelope.
pub open spec fn status_of(e: Envelope) -> EnvelopeStatus {
    if all_slots_filled(e) {
        EnvelopeStatus::FullySigned
    } else if forall|i: int| 0 <= i < e.signatures@.len() ==> e.signatures@[i] is None {
        EnvelopeStatus::Unsigned
    } else {
        EnvelopeStatus::PartiallySigned
    }
}

/// Every slot holds a signature that Ed25519 accepts for its signer over the
/// message bytes.
pub open spec fn signatures_valid(e: Envelope) -> bool {
    &&& e.signatures@.len() == required_signers(e.message).len()
    &&& forall|i: int|
        0 <= i < e.signatures@.len() ==> {
            &&& e.signatures@[i] is Some
            &&& ed25519_accepts(
                required_signers(e.message)[i],
                message_bytes(e.message),
                e.signatures@[i]->Some_0@,
            )
        }
}

/// The index of the first keypair whose public key is `a`, if any.
fn find_keypair(kps: &Vec<Keypair>, a: &Address) -> (r: Option<usize>)
    ensures
        r is Some ==> first_keypair_for(kps@, a@, r->Some_0 as int),
        r is None ==> !has_keypair(kps@, a@),
{
    let mut k: usize = 0;
    while k < kps.len()
        invariant
            0 <= k <= kps@.len(),
            forall|l: int| 0 <= l < k ==> kps@[l]@.1 != a@,
        decreases kps@.len() - k,
    {
        if kps[k].public.same_as(a) {
            return Some(k);
        }
        k = k + 1;
    }
    None
}

/// `a` is one of the required signers `req`.
pub open spec fn is_required(req: Seq<Seq<u8>>, a: Seq<u8>) -> bool {
    exists|i: int| 0 <= i < req.len() && req[i] == a
}

/// The addresses that must sign `m`, in account order.
fn signer_addresses(m: &Message) -> (r: Vec<Address>)
    ensures
        r@.len() == required_signers(*m).len(),
        forall|i: int| 0 <= i < r@.len() ==> r@[i]@ == required_signers(*m)[i],
{
    let keys = &m.account_keys;
    let mut r: Vec<Address> = Vec::new();
    let mut i: usize = 0;
    while i < keys.len()
        invariant
            0 <= i <= keys@.len(),
            r@.len() == signers_of(keys@.take(i as int)).len(),
            forall|j: int| 0 <= j < r@.len() ==> r@[j]@ == signers_of(keys@.take(i as int))[j],
        decreases keys@.len() - i,
    {
        assert(keys@.take(i + 1).drop_last() =~= keys@.take(i as int));
        if keys[i].is_signer {
            r.push(keys[i].address);
        }
        i = i + 1;
    }
    assert(keys@.take(i as int) =~= keys@);
    r
}

/// Whether `a` is among `v`.
fn holds(v: &Vec<Address>, a: &Address) -> (r: bool)
    ensures
        r == exists|j: int| 0 <= j < v@.len() && v@[j]@ == a@,
{
    let mut j: usize = 0;
    while j < v.len()
        invariant
            0 <= j <= v@.len(),
            forall|l: int| 0 <= l < j ==> v@[l]@ != a@,
        decreases v@.len() - j,
    {
        if v[j].same_as(a) {
            return true;
        }
        j = j + 1;
    }
    false
}

/// `req[i]` is the first required signer without a keypair.
pub open spec fn missing_at(req: Seq<Seq<u8>>, kps: Seq<Keypair>, i: int) -> bool {
    &&& 0 <= i < req.len()
    &&& !has_keypair(kps, req[i])
    &&& forall|j: int| 0 <= j < i ==> has_keypair(kps, req[j])
}

/// `kps[k]` is the first keypair that belongs to no required signer.
pub open spec fn unexpected_at(req: Seq<Seq<u8>>, kps: Seq<Keypair>, k: int) -> bool {
    &&& 0 <= k < kps.len()
    &&& !is_required(req, kps[k]@.1)
    &&& forall|l: int| 0 <= l < k ==> is_required(req, kps[l]@.1)
}

/// Each slot of `e` holds the signature of its message bytes by the first
/// keypair in `kps` of the slot's signer.
pub open spec fn fully_signed_by(e: Envelope, kps: Seq<Keypair>) -> bool {
    let req = required_signers(e.message);
    &&& e.signatures@.len() == req.len()
    &&& forall|i: int|
        0 <= i < req.len() ==> slot_signed_by(kps, req[i], message_bytes(e.message), e.signatures@[i])
}

/// The slot holds the signature of `bytes` by the first keypair for `a`.
pub open spec fn slot_signed_by(kps: Seq<Keypair>, a: Seq<u8>, bytes: Seq<u8>, slot: Option<[u8; 64]>) -> bool {
    &&& slot is Some
    &&& signed_by(kps, a, bytes, slot->Some_0@)
}

/// Signs `message` with `keypairs`, which must cover exactly its required
/// signers. A required signer without a keypair gives `MissingSigner` (the
/// first such, in account order); otherwise a keypair of no required signer
/// gives `UnexpectedSigner` (the first such). On success every slot holds the
/// signature of the message bytes by the first keypair of its signer.
pub fn sign(message: Message, keypairs: &Vec<Keypair>) -> (r: Result<Envelope, SignError>)
    ensures
        (exists|i: int| missing_at(required_signers(message), keypairs@, i)) <==> (r is Err
            && r->Err_0 is MissingSigner),
        r is Err && r->Err_0 is MissingSigner ==> exists|i: int|
            missing_at(required_signers(message), keypairs@, i) && required_signers(message)[i]
                == r->Err_0->MissingSigner_0@,
        (!exists|i: int| missing_at(required_signers(message), keypairs@, i)) && (exists|k: int|
            unexpected_at(required_signers(message), keypairs@, k)) <==> (r is Err
            && r->Err_0 is UnexpectedSigner),
        r is Err && r->Err_0 is UnexpectedSigner ==> exists|k: int|
            unexpected_at(required_signers(message), keypairs@, k) && keypairs@[k]@.1
                == r->Err_0->UnexpectedSigner_0@,
        r is Ok ==> r->Ok_0.message == message,
        r is Ok ==> fully_signed_by(r->Ok_0, keypairs@),
{
    let ghost req = required_signers(message);
    let signers = signer_addresses(&message);
    let mut owners: Vec<usize> = Vec::new();
    let mut i: usize = 0;
    while i < signers.len()
        invariant
            0 <= i <= signers@.len(),
            signers@.len() == req.len(),
            req == required_signers(message),
            forall|j: int| 0 <= j < signers@.len() ==> signers@[j]@ == req[j],
            owners@.len() == i,
            forall|j: int| 0 <= j < i ==> first_keypair_for(keypairs@, req[j], owners@[j] as int),
        decreases signers@.len() - i,
    {
        match find_keypair(keypairs, &signers[i]) {
            Some(k) => owners.push(k),
            None => {
                proof {
                    assert forall|j: int| 0 <= j < i implies has_keypair(keypairs@, req[j]) by {
                        assert(first_keypair_for(keypairs@, req[j], owners@[j] as int));
                    }
                    assert(missing_at(req, keypairs@, i as int));
                }
                return Err(SignError::MissingSigner(signers[i]));
            },
        }
        i = i + 1;
    }
    assert forall|j: int| 0 <= j < req.len() implies has_keypair(keypairs@, req[j]) by {
        assert(first_keypair_for(keypairs@, req[j], owners@[j] as int));
    }
    let mut k: usize = 0;
    while k < keypairs.len()
        invariant
            0 <= k <= keypairs@.len(),
            signers@.len() == req.len(),
            forall|j: int| 0 <= j < signers@.len() ==> signers@[j]@ == req[j],
            req == required_signers(message),
            forall|l: int| 0 <= l < k ==> is_required(req, keypairs@[l]@.1),
            forall|j: int| 0 <= j < req.len() ==> has_keypair(keypairs@, req[j]),
        decreases keypairs@.len() - k,
    {
        let a = keypairs[k].public;
        let found = holds(&signers, &a);
        proof {
            if is_required(req, a@) {
                let j = choose|j: int| 0 <= j < req.len() && req[j] == a@;
                assert(signers@[j]@ == a@);
            }
            if found {
                let j = choose|j: int| 0 <= j < signers@.len() && signers@[j]@ == a@;
                assert(req[j] == a@);
            }
        }
        if !found {
            assert(unexpected_at(req, keypairs@, k as int));
            assert forall|i: int| !missing_at(req, keypairs@, i) by {
                if 0 <= i < req.len() {
                    assert(has_keypair(keypairs@, req[i]));
                }
            }
            return Err(SignError::UnexpectedSigner(a));
        }
        k = k + 1;
    }
    let bytes = message.to_bytes();
    let signatures = sign_slots(keypairs, &owners, &bytes, Ghost(req));
    let e = Envelope { message, signatures };
    assert(fully_signed_by(e, keypairs@));
    Ok(e)
}

/// One signature of `bytes` per entry of `owners`, by that keypair.
fn sign_slots(
    keypairs: &Vec<Keypair>,
    owners: &Vec<usize>,
    bytes: &Vec<u8>,
    req: Ghost<Seq<Seq<u8>>>,
) -> (r: Vec<Option<[u8; 64]>>)
    requires
        owners@.len() == req@.len(),
        forall|j: int|
            0 <= j < req@.len() ==> first_keypair_for(keypairs@, req@[j], owners@[j] as int),
    ensures
        r@.len() == req@.len(),
        forall|j: int| 0 <= j < req@.len() ==> slot_signed_by(keypairs@, req@[j], bytes@, r@[j]),
{
    let mut signatures: Vec<Option<[u8; 64]>> = Vec::new();
    let mut i: usize = 0;
    while i < owners.len()
        invariant
            0 <= i <= owners@.len(),
            owners@.len() == req@.len(),
            forall|j: int|
                0 <= j < req@.len() ==> first_keypair_for(keypairs@, req@[j], owners@[j] as int),
            signatures@.len() == i,
            forall|j: int| 0 <= j < i ==> slot_signed_by(keypairs@, req@[j], bytes@, signatures@[j]),
        decreases owners@.len() - i,
    {
        let owner = owners[i];
        assert(first_keypair_for(keypairs@, req@[i as int], owner as int));
        let sig = sign_message(&keypairs[owner].secret, bytes);
        assert(signed_by(keypairs@, req@[i as int], bytes@, sig@));
        signatures.push(Some(sig));
        assert(slot_signed_by(keypairs@, req@[i as int], bytes@, signatures@[i as int]));
        i = i + 1;
    }
    signatures
}

/// Puts `sig` in each slot whose signer is `a`.
fn fill_slots(slots: &mut Vec<Option<[u8; 64]>>, signers: &Vec<Address>, a: &Address, sig: [u8; 64])
    requires
        old(slots)@.len() == signers@.len(),
    ensures
        final(slots)@.len() == old(slots)@.len(),
        forall|j: int|
            0 <= j < old(slots)@.len() ==> final(slots)@[j] == (if signers@[j]@ == a@ {
                Some(sig)
            } else {
                old(slots)@[j]
            }),
{
    let mut i: usize = 0;
    while i < signers.len()
        invariant
            0 <= i <= signers@.len(),
            slots@.len() == signers@.len(),
            old(slots)@.len() == signers@.len(),
            forall|j: int|
                0 <= j < signers@.len() ==> slots@[j] == (if j < i && signers@[j]@ == a@ {
                    Some(sig)
                } else {
                    old(slots)@[j]
                }),
        decreases signers@.len() - i,
    {
        if signers[i].same_as(a) {
            slots.set(i, Some(sig));
        }
        i = i + 1;
    }
}

impl Envelope {
    /// An envelope with one empty slot per required signer.
    pub fn unsigned(message: Message) -> (r: Envelope)
        ensures
            r.message == message,
            r.signatures@.len() == required_signers(message).len(),
            forall|i: int| 0 <= i < r.signatures@.len() ==> r.signatures@[i] is None,
    {
        let n = signer_addresses(&message).len();
        let mut signatures: Vec<Option<[u8; 64]>> = Vec::new();
        let mut i: usize = 0;
        while i < n
            invariant
                0 <= i <= n,
                signatures@.len() == i,
                forall|j: int| 0 <= j < i ==> signatures@[j] is None,
            decreases n - i,
        {
            signatures.push(None);
            i = i + 1;
        }
        Envelope { message, signatures }
    }

    /// How far the envelope has been signed.
    pub fn status(&self) -> (r: EnvelopeStatus)
        ensures
            r == status_of(*self),
    {
        let n = signer_addresses(&self.message).len();
        let mut filled: usize = 0;
        let mut i: usize = 0;
        while i < self.signatures.len()
            invariant
                0 <= filled <= i <= self.signatures@.len(),
                filled == 0 <==> forall|j: int| 0 <= j < i ==> self.signatures@[j] is None,
                filled == i <==> forall|j: int| 0 <= j < i ==> self.signatures@[j] is Some,
            decreases self.signatures@.len() - i,
        {
            if self.signatures[i].is_some() {
                filled = filled + 1;
            }
            i = i + 1;
        }
        if filled == n && n == self.signatures.len() {
            EnvelopeStatus::FullySigned
        } else if filled == 0 {
            EnvelopeStatus::Unsigned
        } else {
            EnvelopeStatus::PartiallySigned
        }
    }

    /// Fills the slot of `keypair`'s signer with its signature of the message
    /// bytes; a keypair of no required signer gives `UnexpectedSigner` and
    /// leaves the envelope as it was.
    pub fn partial_sign(&mut self, keypair: &Keypair) -> (r: Result<(), SignError>)
        requires
            old(self).signatures@.len() == required_signers(old(self).message).len(),
        ensures
            final(self).message == old(self).message,
            final(self).signatures@.len() == old(self).signatures@.len(),
            r is Err <==> !is_required(required_signers(old(self).message), keypair@.1),
            r is Err ==> r->Err_0 is UnexpectedSigner && r->Err_0->UnexpectedSigner_0@ == keypair@.1
                && final(self).signatures@ == old(self).signatures@,
            r is Ok ==> forall|i: int|
                0 <= i < old(self).signatures@.len() ==> if required_signers(old(self).message)[i]
                    == keypair@.1 {
                    &&& final(self).signatures@[i] is Some
                    &&& final(self).signatures@[i]->Some_0@ == ed25519_signature_of(
                        keypair@.0,
                        message_bytes(old(self).message),
                    )
                } else {
                    final(self).signatures@[i] == old(self).signatures@[i]
                },
    {
        let signers = signer_addresses(&self.message);
        let ghost req = required_signers(self.message);
        let a = keypair.public;
        if !holds(&signers, &a) {
            proof {
                if is_required(req, a@) {
                    let j = choose|j: int| 0 <= j < req.len() && req[j] == a@;
                    assert(signers@[j]@ == a@);
                }
            }
            return Err(SignError::UnexpectedSigner(a));
        }
        proof {
            let j = choose|j: int| 0 <= j < signers@.len() && signers@[j]@ == a@;
            assert(req[j] == a@);
        }
        let bytes = self.message.to_bytes();
        let sig = sign_message(&keypair.secret, &bytes);
        let ghost before = self.signatures@;
        fill_slots(&mut self.signatures, &signers, &a, sig);
        assert forall|j: int| 0 <= j < before.len() implies signers@[j]@ == a@ <==> req[j] == keypair@.1 by {}
        Ok(())
    }

    /// Whether every slot holds a signature that Ed25519 accepts for its
    /// signer over the message bytes.
    pub fn verify_signatures(&self) -> (r: bool)
        ensures
            r == signatures_valid(*self),
    {
        let signers = signer_addresses(&self.message);
        if signers.len() != self.signatures.len() {
            return false;
        }
        let bytes = self.message.to_bytes();
        let mut i: usize = 0;
        while i < signers.len()
            invariant
                0 <= i <= signers@.len(),
                signers@.len() == self.signatures@.len(),
                signers@.len() == required_signers(self.message).len(),
                forall|j: int| 0 <= j < signers@.len() ==> signers@[j]@ == required_signers(self.message)[j],
                bytes@ == message_bytes(self.message),
                forall|j: int|
                    0 <= j < i ==> {
                        &&& self.signatures@[j] is Some
                        &&& ed25519_accepts(
                            required_signers(self.message)[j],
                            message_bytes(self.message),
                            self.signatures@[j]->Some_0@,
                        )
                    },
            decreases signers@.len() - i,
        {
            match &self.signatures[i] {
                None => {
                    return false;
                },
                Some(sig) => {
                    if !signature_accepted(&signers[i].bytes, &bytes, sig) {
                        return false;
                    }
                },
            }
            i = i + 1;
        }
        true
    }

    /// Succeeds only on a fully signed envelope, the one state that may be
    /// submitted.
    pub fn check_complete(&self) -> (r: Result<(), EnvelopeError>)
        ensures
            r is Ok <==> status_of(*self) == EnvelopeStatus::FullySigned,
            r is Err ==> r == Err::<(), EnvelopeError>(EnvelopeError::IncompleteSignatures),
    {
        match self.status() {
            EnvelopeStatus::FullySigned => Ok(()),
            _ => Err(EnvelopeError::IncompleteSignatures),
        }
    }
}

/// A signed envelope is fully signed: every account marked signer in its
/// message has a signature in its own slot, made over the message bytes by
/// that signer's keypair.
pub proof fn lemma_signed_envelope_complete(message: Message, keypairs: Seq<Keypair>, e: Envelope)
    requires
        e.message == message,
        fully_signed_by(e, keypairs),
    ensures
        status_of(e) == EnvelopeStatus::FullySigned,
        forall|i: int|
            0 <= i < message.account_keys@.len() && message.account_keys@[i].is_signer ==> exists|j: int|
                0 <= j < e.signatures@.len() && required_signers(message)[j] == message.account_keys@[i].address@
                    && slot_signed_by(keypairs, message.account_keys@[i].address@, message_bytes(message), e.signatures@[j]),
{
    let req = required_signers(message);
    assert forall|i: int| 0 <= i < e.signatures@.len() implies e.signatures@[i] is Some by {
        assert(slot_signed_by(keypairs, req[i], message_bytes(message), e.signatures@[i]));
    }
    assert forall|i: int|
        0 <= i < message.account_keys@.len() && message.account_keys@[i].is_signer implies exists|j: int|
            0 <= j < e.signatures@.len() && req[j] == message.account_keys@[i].address@
                && slot_signed_by(keypairs, message.account_keys@[i].address@, message_bytes(message), e.signatures@[j]) by {
        let j = lemma_signer_position(message.account_keys@, i);
        assert(slot_signed_by(keypairs, req[j], message_bytes(message), e.signatures@[j]));
    }
}

/// Each account marked signer has a position among the required signers.
proof fn lemma_signer_position(keys: Seq<AccountMeta>, i: int) -> (j: int)
    requires
        0 <= i < keys.len(),
        keys[i].is_signer,
    ensures
        0 <= j < signers_of(keys).len(),
        signers_of(keys)[j] == keys[i].address@,
    decreases keys.len(),
{
    if i == keys.len() - 1 {
        signers_of(keys.drop_last()).len() as int
    } else {
        let j = lemma_signer_position(keys.drop_last(), i);
        j
    }
}

} // verus!
