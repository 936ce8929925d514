//! Wire codec for the full session credential.
//!
//! A credential travels as a flat ordered sequence of field elements: the
//! four session fields, a length-prefixed authorization payload, two
//! tagged-variant signatures, and a length-prefixed list of length-prefixed
//! merkle proof paths. The encoding is a fixed binary contract with the
//! verifying contract's ABI decoder, so both directions are specified by
//! total spec functions ([`spec_encode_token`], [`spec_decode_token`]) and
//! the executable codec is proved to match them exactly.

use crate::felt::{felt_of_u64, Felt252};
use crate::hash::RawSession;
use vstd::prelude::*;

verus! {

/// A signature over the session's message hash, tagged by signer kind. The
/// payload of each variant is produced elsewhere and opaque to this crate;
/// the codec only measures and moves it.
#[derive(Clone, Copy, Debug, PartialEq, Eq, Structural)]
pub enum SignerSignature {
    /// A native signer: public key and the two signature scalars.
    Starknet { pubkey: Felt252, r: Felt252, s: Felt252 },
    /// A P-256 signer: public key and signature scalars, each a 256-bit
    /// value split into a low and a high field element.
    Secp256r1 {
        pubkey_low: Felt252,
        pubkey_high: Felt252,
        r_low: Felt252,
        r_high: Felt252,
        s_low: Felt252,
        s_high: Felt252,
    },
}

/// Why a decode rejected its input. Every variant is recoverable: the
/// caller rejects the incoming token.
#[derive(Clone, Copy, Debug, PartialEq, Eq, Structural)]
pub enum DecodeError {
    /// Fewer elements remain than a fixed-size part needs.
    TooShort,
    /// A length prefix does not fit the machine's word, or declares more
    /// elements than remain.
    InvalidLength,
    /// A fixed-width field holds an element outside its range.
    InvalidValue,
    /// A signature's tag matches no known variant.
    UnknownTag,
}

/// The full credential bundle in wire form: session, authorization
/// payload, the session key's and the guardian's signatures, and one
/// merkle proof path per authorized method.
#[derive(Clone, Debug, PartialEq)]
pub struct RawSessionToken {
    pub session: RawSession,
    pub session_authorization: Vec<Felt252>,
    pub session_signature: SignerSignature,
    pub guardian_signature: SignerSignature,
    pub proofs: Vec<Vec<Felt252>>,
}

/// The mathematical shape of a [`RawSessionToken`]: the same fields with
/// every vector abstracted to a sequence.
#[verifier::ext_equal]
pub struct SessionTokenModel {
    pub session: RawSession,
    pub session_authorization: Seq<Felt252>,
    pub session_signature: SignerSignature,
    pub guardian_signature: SignerSignature,
    pub proofs: Seq<Seq<Felt252>>,
}

impl View for RawSessionToken {
    type V = SessionTokenModel;

    open spec fn view(&self) -> SessionTokenModel {
        SessionTokenModel {
            session: self.session,
            session_authorization: self.session_authorization@,
            session_signature: self.session_signature,
            guardian_signature: self.guardian_signature,
            proofs: self.proofs@.map_values(|x: Vec<Felt252>| x@),
        }
    }
}

impl SessionTokenModel {
    /// Every sequence of the model fits in a machine-size vector; the view
    /// of any in-memory token satisfies this (see [`lemma_view_fits`]).
    pub open spec fn fits(self) -> bool {
        &&& self.session_authorization.len() <= usize::MAX
        &&& self.proofs.len() <= usize::MAX
        &&& forall|i: int| 0 <= i < self.proofs.len() ==> #[trigger] self.proofs[i].len() <= usize::MAX
    }
}

/// The view of any token held in memory satisfies
/// [`SessionTokenModel::fits`]: its sequences are the views of
/// machine-size vectors.
pub proof fn lemma_view_fits(t: &RawSessionToken)
    ensures
        t@.fits(),
{
    broadcast use vstd::std_specs::vec::axiom_spec_len;

    assert(vstd::std_specs::vec::spec_vec_len(&t.session_authorization)
        == t.session_authorization@.len());
    assert(vstd::std_specs::vec::spec_vec_len(&t.proofs) == t.proofs@.len());
    assert forall|i: int| 0 <= i < t@.proofs.len() implies #[trigger] t@.proofs[i].len()
        <= usize::MAX by {
        assert(vstd::std_specs::vec::spec_vec_len(&t.proofs@[i]) == t.proofs@[i]@.len());
        assert(t@.proofs[i] == t.proofs@[i]@);
    }
}

// ------------------------------------------------------------------
// The wire form, as spec functions.
// ------------------------------------------------------------------

/// Encoding of the session: its four fields in declared order.
pub open spec fn spec_encode_session(s: RawSession) -> Seq<Felt252> {
    seq![felt_of_u64(s.expires_at), s.allowed_methods_root, s.metadata_hash, s.session_key_guid]
}

/// Encoding of a signature: its variant's tag, then the variant's fields
/// in declared order.
pub open spec fn spec_encode_sig(g: SignerSignature) -> Seq<Felt252> {
    match g {
        SignerSignature::Starknet { pubkey, r, s } => seq![felt_of_u64(0), pubkey, r, s],
        SignerSignature::Secp256r1 { pubkey_low, pubkey_high, r_low, r_high, s_low, s_high } => seq![
            felt_of_u64(1),
            pubkey_low,
            pubkey_high,
            r_low,
            r_high,
            s_low,
            s_high,
        ],
    }
}

/// Encoding of an element sequence: its length as one element, then the
/// elements.
pub open spec fn spec_encode_felts(s: Seq<Felt252>) -> Seq<Felt252> {
    seq![felt_of_u64(s.len() as u64)] + s
}

/// The concatenated encodings of a list of proof paths, each
/// length-prefixed.
pub open spec fn spec_encode_proof_entries(p: Seq<Seq<Felt252>>) -> Seq<Felt252>
    decreases p.len(),
{
    if p.len() == 0 {
        Seq::empty()
    } else {
        spec_encode_felts(p.first()) + spec_encode_proof_entries(p.drop_first())
    }
}

/// Encoding of the proof list: its count as one element, then each path's
/// encoding.
pub open spec fn spec_encode_proofs(p: Seq<Seq<Felt252>>) -> Seq<Felt252> {
    seq![felt_of_u64(p.len() as u64)] + spec_encode_proof_entries(p)
}

/// Encoding of the full credential: the five parts in fixed order.
pub open spec fn spec_encode_token(t: SessionTokenModel) -> Seq<Felt252> {
    spec_encode_session(t.session) + spec_encode_felts(t.session_authorization)
        + spec_encode_sig(t.session_signature) + spec_encode_sig(t.guardian_signature)
        + spec_encode_proofs(t.proofs)
}

/// Whether an element is small enough to act as a length or count.
pub open spec fn felt_fits_usize(f: Felt252) -> bool {
    f.l1 == 0 && f.l2 == 0 && f.l3 == 0 && f.l0 <= usize::MAX as u64
}

/// Whether an element fits the session's 64-bit timestamp field.
pub open spec fn felt_fits_u64(f: Felt252) -> bool {
    f.l1 == 0 && f.l2 == 0 && f.l3 == 0
}

/// Decoding of a session at position `i`: four elements, the first of
/// which must fit the timestamp's width. Returns the value and how many
/// elements it consumed.
pub open spec fn spec_decode_session(s: Seq<Felt252>, i: int) -> Result<
    (RawSession, int),
    DecodeError,
> {
    if i + 4 > s.len() {
        Err(DecodeError::TooShort)
    } else if !felt_fits_u64(s[i]) {
        Err(DecodeError::InvalidValue)
    } else {
        Ok(
            (
                RawSession {
                    expires_at: s[i].l0,
                    allowed_methods_root: s[i + 1],
                    metadata_hash: s[i + 2],
                    session_key_guid: s[i + 3],
                },
                4,
            ),
        )
    }
}

/// Decoding of a length-prefixed element sequence at position `i`.
pub open spec fn spec_decode_felts(s: Seq<Felt252>, i: int) -> Result<
    (Seq<Felt252>, int),
    DecodeError,
> {
    if i >= s.len() {
        Err(DecodeError::TooShort)
    } else if !felt_fits_usize(s[i]) {
        Err(DecodeError::InvalidLength)
    } else if i + 1 + s[i].l0 > s.len() {
        Err(DecodeError::InvalidLength)
    } else {
        Ok((s.subrange(i + 1, i + 1 + s[i].l0), 1 + s[i].l0))
    }
}

/// Decoding of a tagged signature at position `i`: the tag picks the
/// variant and with it how many elements follow.
pub open spec fn spec_decode_sig(s: Seq<Felt252>, i: int) -> Result<
    (SignerSignature, int),
    DecodeError,
> {
    if i >= s.len() {
        Err(DecodeError::TooShort)
    } else if s[i] == felt_of_u64(0) {
        if i + 4 > s.len() {
            Err(DecodeError::TooShort)
        } else {
            Ok((SignerSignature::Starknet { pubkey: s[i + 1], r: s[i + 2], s: s[i + 3] }, 4))
        }
    } else if s[i] == felt_of_u64(1) {
        if i + 7 > s.len() {
            Err(DecodeError::TooShort)
        } else {
            Ok(
                (
                    SignerSignature::Secp256r1 {
                        pubkey_low: s[i + 1],
                        pubkey_high: s[i + 2],
                        r_low: s[i + 3],
                        r_high: s[i + 4],
                        s_low: s[i + 5],
                        s_high: s[i + 6],
                    },
                    7,
                ),
            )
        }
    } else {
        Err(DecodeError::UnknownTag)
    }
}

/// Decoding of `n` consecutive length-prefixed sequences starting at
/// position `i`.
pub open spec fn spec_decode_proof_entries(s: Seq<Felt252>, i: int, n: nat) -> Result<
    (Seq<Seq<Felt252>>, int),
    DecodeError,
>
    decreases n,
{
    if n == 0 {
        Ok((Seq::empty(), 0))
    } else {
        match spec_decode_felts(s, i) {
            Err(e) => Err(e),
            Ok((v, used)) => match spec_decode_proof_entries(s, i + used, (n - 1) as nat) {
                Err(e) => Err(e),
                Ok((rest, used_rest)) => Ok((seq![v] + rest, used + used_rest)),
            },
        }
    }
}

/// Decoding of the count-prefixed proof list at position `i`.
pub open spec fn spec_decode_proofs(s: Seq<Felt252>, i: int) -> Result<
    (Seq<Seq<Felt252>>, int),
    DecodeError,
> {
    if i >= s.len() {
        Err(DecodeError::TooShort)
    } else if !felt_fits_usize(s[i]) {
        Err(DecodeError::InvalidLength)
    } else {
        match spec_decode_proof_entries(s, i + 1, s[i].l0 as nat) {
            Err(e) => Err(e),
            Ok((ps, used)) => Ok((ps, 1 + used)),
        }
    }
}

/// Decoding of the full credential at position `i`: each part in the fixed
/// order, the cursor advanced by exactly what the part before consumed.
pub open spec fn spec_decode_token(s: Seq<Felt252>, i: int) -> Result<
    (SessionTokenModel, int),
    DecodeError,
> {
    match spec_decode_session(s, i) {
        Err(e) => Err(e),
        Ok((sess, u1)) => match spec_decode_felts(s, i + u1) {
            Err(e) => Err(e),
            Ok((auth, u2)) => match spec_decode_sig(s, i + u1 + u2) {
                Err(e) => Err(e),
                Ok((sig1, u3)) => match spec_decode_sig(s, i + u1 + u2 + u3) {
                    Err(e) => Err(e),
                    Ok((sig2, u4)) => match spec_decode_proofs(s, i + u1 + u2 + u3 + u4) {
                        Err(e) => Err(e),
                        Ok(
                            (prs, u5),
                        ) => Ok(
                            (
                                SessionTokenModel {
                                    session: sess,
                                    session_authorization: auth,
                                    session_signature: sig1,
                                    guardian_signature: sig2,
                                    proofs: prs,
                                },
                                u1 + u2 + u3 + u4 + u5,
                            ),
                        ),
                    },
                },
            },
        },
    }
}

} // verus!

verus! {

// ------------------------------------------------------------------
// Facts about the concatenated proof entries.
// ------------------------------------------------------------------

/// Taking one more path extends the concatenated entries by that path's
/// encoding.
proof fn lemma_proof_entries_take_succ(p: Seq<Seq<Felt252>>, k: int)
    requires
        0 <= k < p.len(),
    ensures
        spec_encode_proof_entries(p.take(k + 1)) == spec_encode_proof_entries(p.take(k))
            + spec_encode_felts(p[k]),
    decreases k,
{
    if k == 0 {
        assert(p.take(1).first() == p[0]);
        assert(p.take(1).drop_first() =~= Seq::<Seq<Felt252>>::empty());
        assert(p.take(0) =~= Seq::<Seq<Felt252>>::empty());
        assert(spec_encode_proof_entries(p.take(1)) =~= spec_encode_proof_entries(p.take(0))
            + spec_encode_felts(p[0]));
    } else {
        let pd = p.drop_first();
        lemma_proof_entries_take_succ(pd, k - 1);
        assert(p.take(k + 1).first() == p[0]);
        assert(p.take(k).first() == p[0]);
        assert(p.take(k + 1).drop_first() =~= pd.take(k));
        assert(p.take(k).drop_first() =~= pd.take(k - 1));
        assert(pd[k - 1] == p[k]);
        assert(spec_encode_felts(p[0]) + (spec_encode_proof_entries(pd.take(k - 1))
            + spec_encode_felts(p[k])) =~= (spec_encode_felts(p[0]) + spec_encode_proof_entries(
            pd.take(k - 1),
        )) + spec_encode_felts(p[k]));
    }
}

/// The concatenated entries split at any path boundary.
proof fn lemma_proof_entries_split(p: Seq<Seq<Felt252>>, k: int)
    requires
        0 <= k <= p.len(),
    ensures
        spec_encode_proof_entries(p) == spec_encode_proof_entries(p.take(k))
            + spec_encode_proof_entries(p.skip(k)),
    decreases k,
{
    if k == 0 {
        assert(p.take(0) =~= Seq::<Seq<Felt252>>::empty());
        assert(p.skip(0) =~= p);
        assert(spec_encode_proof_entries(p.take(0)) + spec_encode_proof_entries(p) =~=
            spec_encode_proof_entries(p));
    } else {
        lemma_proof_entries_split(p, k - 1);
        lemma_proof_entries_take_succ(p, k - 1);
        assert(p.skip(k - 1).len() != 0);
        assert(p.skip(k - 1).first() == p[k - 1]);
        assert(p.skip(k - 1).drop_first() =~= p.skip(k));
        assert(spec_encode_proof_entries(p.take(k - 1)) + (spec_encode_felts(p[k - 1])
            + spec_encode_proof_entries(p.skip(k))) =~= (spec_encode_proof_entries(p.take(k - 1))
            + spec_encode_felts(p[k - 1])) + spec_encode_proof_entries(p.skip(k)));
    }
}

// ------------------------------------------------------------------
// Encoding and size accounting.
// ------------------------------------------------------------------

/// Appends a copy of every element of `src` to `out`.
fn push_all(out: &mut Vec<Felt252>, src: &Vec<Felt252>)
    ensures
        final(out)@ == old(out)@ + src@,
{
    let n = src.len();
    let mut k: usize = 0;
    while k < n
        invariant
            n == src@.len(),
            k <= n,
            out@ == old(out)@ + src@.take(k as int),
        decreases n - k,
    {
        out.push(src[k]);
        proof {
            assert(out@ =~= old(out)@ + src@.take(k as int + 1));
        }
        k += 1;
    }
    proof {
        assert(old(out)@ + src@.take(n as int) =~= old(out)@ + src@);
    }
}

/// Appends a signature's tagged-variant encoding to `out`.
fn encode_sig_into(out: &mut Vec<Felt252>, g: &SignerSignature)
    ensures
        final(out)@ == old(out)@ + spec_encode_sig(*g),
{
    match *g {
        SignerSignature::Starknet { pubkey, r, s } => {
            out.push(Felt252::from_u64(0));
            out.push(pubkey);
            out.push(r);
            out.push(s);
            proof {
                assert(out@ =~= old(out)@ + spec_encode_sig(*g));
            }
        },
        SignerSignature::Secp256r1 { pubkey_low, pubkey_high, r_low, r_high, s_low, s_high } => {
            out.push(Felt252::from_u64(1));
            out.push(pubkey_low);
            out.push(pubkey_high);
            out.push(r_low);
            out.push(r_high);
            out.push(s_low);
            out.push(s_high);
            proof {
                assert(out@ =~= old(out)@ + spec_encode_sig(*g));
            }
        },
    }
}

/// How many elements a signature's encoding takes.
fn sig_serialized_size(g: &SignerSignature) -> (r: usize)
    ensures
        r == spec_encode_sig(*g).len(),
{
    match *g {
        SignerSignature::Starknet { .. } => 4,
        SignerSignature::Secp256r1 { .. } => 7,
    }
}

impl RawSessionToken {
    /// Serializes the credential into its wire form: exactly
    /// [`spec_encode_token`] of this token's value.
    pub fn cairo_serialize(&self) -> (r: Vec<Felt252>)
        ensures
            r@ == spec_encode_token(self@),
    {
        let ghost m = self@;
        let mut out: Vec<Felt252> = Vec::new();
        out.push(Felt252::from_u64(self.session.expires_at));
        out.push(self.session.allowed_methods_root);
        out.push(self.session.metadata_hash);
        out.push(self.session.session_key_guid);
        proof {
            assert(out@ =~= spec_encode_session(m.session));
        }
        out.push(Felt252::from_usize(self.session_authorization.len()));
        push_all(&mut out, &self.session_authorization);
        proof {
            assert(out@ =~= spec_encode_session(m.session) + spec_encode_felts(
                m.session_authorization,
            ));
        }
        encode_sig_into(&mut out, &self.session_signature);
        encode_sig_into(&mut out, &self.guardian_signature);
        out.push(Felt252::from_usize(self.proofs.len()));
        let ghost pre = out@;
        let n = self.proofs.len();
        let mut k: usize = 0;
        while k < n
            invariant
                n == self.proofs@.len(),
                k <= n,
                out@ == pre + spec_encode_proof_entries(m.proofs.take(k as int)),
                m.proofs == self.proofs@.map_values(|x: Vec<Felt252>| x@),
            decreases n - k,
        {
            let p = &self.proofs[k];
            out.push(Felt252::from_usize(p.len()));
            push_all(&mut out, p);
            proof {
                lemma_proof_entries_take_succ(m.proofs, k as int);
                assert(m.proofs[k as int] == p@);
                assert(out@ =~= pre + spec_encode_proof_entries(m.proofs.take(k as int + 1)));
            }
            k += 1;
        }
        proof {
            assert(m.proofs.take(n as int) =~= m.proofs);
            assert(out@ =~= spec_encode_token(m));
        }
        out
    }

    /// How many elements [`Self::cairo_serialize`] will produce, computed
    /// without producing them. The bound on the encoded length is a machine
    /// limit: the count is returned as one machine word.
    pub fn cairo_serialized_size(&self) -> (r: usize)
        requires
            spec_encode_token(self@).len() <= usize::MAX,
        ensures
            r == spec_encode_token(self@).len(),
    {
        let ghost m = self@;
        let ghost total = spec_encode_token(m).len() as int;
        let s1 = sig_serialized_size(&self.session_signature);
        let s2 = sig_serialized_size(&self.guardian_signature);
        let ghost base = 4 + 1 + m.session_authorization.len() + s1 + s2 + 1;
        proof {
            lemma_proof_entries_split(m.proofs, 0);
            assert(total == base + spec_encode_proof_entries(m.proofs).len());
        }
        let mut acc: usize = 4 + 1;
        acc = acc + self.session_authorization.len();
        acc = acc + s1;
        acc = acc + s2;
        acc = acc + 1;
        let n = self.proofs.len();
        let mut k: usize = 0;
        while k < n
            invariant
                n == self.proofs@.len(),
                k <= n,
                m.proofs == self.proofs@.map_values(|x: Vec<Felt252>| x@),
                acc == base + spec_encode_proof_entries(m.proofs.take(k as int)).len(),
                total == base + spec_encode_proof_entries(m.proofs).len(),
                total <= usize::MAX,
            decreases n - k,
        {
            proof {
                lemma_proof_entries_take_succ(m.proofs, k as int);
                lemma_proof_entries_split(m.proofs, k as int + 1);
                assert(m.proofs[k as int] == self.proofs@[k as int]@);
            }
            acc = acc + 1;
            acc = acc + self.proofs[k].len();
            k += 1;
        }
        proof {
            assert(m.proofs.take(n as int) =~= m.proofs);
        }
        acc
    }
}

} // verus!

verus! {

// ------------------------------------------------------------------
// Decoding.
// ------------------------------------------------------------------

/// Decodes a session at `offset`: exactly [`spec_decode_session`].
pub fn decode_session(felts: &Vec<Felt252>, offset: usize) -> (r: Result<
    (RawSession, usize),
    DecodeError,
>)
    ensures
        match r {
            Ok((v, used)) => spec_decode_session(felts@, offset as int) == Ok::<_, DecodeError>(
                (v, used as int),
            ),
            Err(e) => spec_decode_session(felts@, offset as int) == Err::<(RawSession, int), _>(e),
        },
{
    if felts.len() < 4 || offset > felts.len() - 4 {
        return Err(DecodeError::TooShort);
    }
    let e = felts[offset];
    if !(e.l1 == 0 && e.l2 == 0 && e.l3 == 0) {
        return Err(DecodeError::InvalidValue);
    }
    Ok(
        (
            RawSession {
                expires_at: e.l0,
                allowed_methods_root: felts[offset + 1],
                metadata_hash: felts[offset + 2],
                session_key_guid: felts[offset + 3],
            },
            4,
        ),
    )
}

/// Decodes a length-prefixed element sequence at `offset`: exactly
/// [`spec_decode_felts`].
pub fn decode_felt_vec(felts: &Vec<Felt252>, offset: usize) -> (r: Result<
    (Vec<Felt252>, usize),
    DecodeError,
>)
    ensures
        match r {
            Ok((v, used)) => spec_decode_felts(felts@, offset as int) == Ok::<_, DecodeError>(
                (v@, used as int),
            ),
            Err(e) => spec_decode_felts(felts@, offset as int) == Err::<(Seq<Felt252>, int), _>(e),
        },
{
    if offset >= felts.len() {
        return Err(DecodeError::TooShort);
    }
    let lf = felts[offset];
    if !(lf.l1 == 0 && lf.l2 == 0 && lf.l3 == 0 && lf.l0 <= usize::MAX as u64) {
        return Err(DecodeError::InvalidLength);
    }
    let n = lf.l0 as usize;
    if n > felts.len() - (offset + 1) {
        return Err(DecodeError::InvalidLength);
    }
    let mut v: Vec<Felt252> = Vec::new();
    let mut k: usize = 0;
    while k < n
        invariant
            felts@.len() <= usize::MAX,
            offset as int + 1 + n <= felts@.len(),
            k <= n,
            v@ == felts@.subrange(offset as int + 1, offset as int + 1 + k),
        decreases n - k,
    {
        v.push(felts[offset + 1 + k]);
        proof {
            assert(v@ =~= felts@.subrange(offset as int + 1, offset as int + 1 + k + 1));
        }
        k += 1;
    }
    Ok((v, 1 + n))
}

/// Decodes a tagged signature at `offset`: exactly [`spec_decode_sig`].
pub fn decode_signature(felts: &Vec<Felt252>, offset: usize) -> (r: Result<
    (SignerSignature, usize),
    DecodeError,
>)
    ensures
        match r {
            Ok((v, used)) => spec_decode_sig(felts@, offset as int) == Ok::<_, DecodeError>(
                (v, used as int),
            ),
            Err(e) => spec_decode_sig(felts@, offset as int) == Err::<(SignerSignature, int), _>(
                e,
            ),
        },
{
    if offset >= felts.len() {
        return Err(DecodeError::TooShort);
    }
    let tag = felts[offset];
    if tag == Felt252::from_u64(0) {
        if felts.len() - (offset + 1) < 3 {
            return Err(DecodeError::TooShort);
        }
        Ok(
            (
                SignerSignature::Starknet {
                    pubkey: felts[offset + 1],
                    r: felts[offset + 2],
                    s: felts[offset + 3],
                },
                4,
            ),
        )
    } else if tag == Felt252::from_u64(1) {
        if felts.len() - (offset + 1) < 6 {
            return Err(DecodeError::TooShort);
        }
        Ok(
            (
                SignerSignature::Secp256r1 {
                    pubkey_low: felts[offset + 1],
                    pubkey_high: felts[offset + 2],
                    r_low: felts[offset + 3],
                    r_high: felts[offset + 4],
                    s_low: felts[offset + 5],
                    s_high: felts[offset + 6],
                },
                7,
            ),
        )
    } else {
        Err(DecodeError::UnknownTag)
    }
}

/// Decodes the count-prefixed proof list at `offset`: exactly
/// [`spec_decode_proofs`].
#[verifier::loop_isolation(false)]
pub fn decode_proofs(felts: &Vec<Felt252>, offset: usize) -> (r: Result<
    (Vec<Vec<Felt252>>, usize),
    DecodeError,
>)
    ensures
        match r {
            Ok((v, used)) => spec_decode_proofs(felts@, offset as int) == Ok::<_, DecodeError>(
                (v@.map_values(|x: Vec<Felt252>| x@), used as int),
            ) && offset + used <= felts@.len(),
            Err(e) => spec_decode_proofs(felts@, offset as int) == Err::<
                (Seq<Seq<Felt252>>, int),
                _,
            >(e),
        },
{
    if offset >= felts.len() {
        return Err(DecodeError::TooShort);
    }
    let cf = felts[offset];
    if !(cf.l1 == 0 && cf.l2 == 0 && cf.l3 == 0 && cf.l0 <= usize::MAX as u64) {
        return Err(DecodeError::InvalidLength);
    }
    let m = cf.l0 as usize;
    let mut acc: Vec<Vec<Felt252>> = Vec::new();
    let mut cur: usize = offset + 1;
    let mut k: usize = 0;
    proof {
        let e0 = spec_decode_proof_entries(felts@, offset as int + 1, m as nat);
        assert(acc@.map_values(|x: Vec<Felt252>| x@) =~= Seq::<Seq<Felt252>>::empty());
        if e0 is Ok {
            assert(Seq::<Seq<Felt252>>::empty() + e0->Ok_0.0 =~= e0->Ok_0.0);
        }
    }
    while k < m
        invariant
            felts@.len() <= usize::MAX,
            k <= m,
            offset as int + 1 <= cur as int <= felts@.len(),
            acc@.len() == k,
            spec_decode_proof_entries(felts@, offset as int + 1, m as nat) == (match
                spec_decode_proof_entries(felts@, cur as int, (m - k) as nat) {
                Err(e) => Err(e),
                Ok((rest, u)) => Ok(
                    (
                        acc@.map_values(|x: Vec<Felt252>| x@) + rest,
                        (cur as int - (offset as int + 1)) + u,
                    ),
                ),
            }),
        decreases m - k,
    {
        match decode_felt_vec(felts, cur) {
            Err(e) => {
                proof {
                    assert(spec_decode_proof_entries(felts@, cur as int, (m - k) as nat)
                        == Err::<(Seq<Seq<Felt252>>, int), DecodeError>(e));
                }
                return Err(e);
            },
            Ok((v, used)) => {
                proof {
                    let ghost accm = acc@.map_values(|x: Vec<Felt252>| x@);
                    let ghost tail = spec_decode_proof_entries(
                        felts@,
                        cur as int + used as int,
                        (m - k - 1) as nat,
                    );
                    if tail is Ok {
                        let (rest, u) = tail->Ok_0;
                        assert(accm + (seq![v@] + rest) =~= acc@.push(v).map_values(
                            |x: Vec<Felt252>| x@,
                        ) + rest);
                    }
                }
                acc.push(v);
                cur = cur + used;
                k += 1;
            },
        }
    }
    proof {
        let ghost accm = acc@.map_values(|x: Vec<Felt252>| x@);
        assert(accm + Seq::<Seq<Felt252>>::empty() =~= accm);
    }
    Ok((acc, cur - offset))
}

impl RawSessionToken {
    /// Deserializes a credential from `felts` starting at `offset`,
    /// reversing [`Self::cairo_serialize`]: exactly [`spec_decode_token`].
    /// Returns the value and how many elements were consumed.
    pub fn cairo_deserialize(felts: &Vec<Felt252>, offset: usize) -> (r: Result<
        (RawSessionToken, usize),
        DecodeError,
    >)
        ensures
            match r {
                Ok((t, used)) => spec_decode_token(felts@, offset as int) == Ok::<_, DecodeError>(
                    (t@, used as int),
                ),
                Err(e) => spec_decode_token(felts@, offset as int) == Err::<
                    (SessionTokenModel, int),
                    _,
                >(e),
            },
    {
        proof {
            assert(felts@.len() == felts.len());
        }
        let (session, u1) = match decode_session(felts, offset) {
            Ok(x) => x,
            Err(e) => {
                return Err(e);
            },
        };
        let (session_authorization, u2) = match decode_felt_vec(felts, offset + u1) {
            Ok(x) => x,
            Err(e) => {
                return Err(e);
            },
        };
        let (session_signature, u3) = match decode_signature(felts, offset + u1 + u2) {
            Ok(x) => x,
            Err(e) => {
                return Err(e);
            },
        };
        let (guardian_signature, u4) = match decode_signature(felts, offset + u1 + u2 + u3) {
            Ok(x) => x,
            Err(e) => {
                return Err(e);
            },
        };
        let (proofs, u5) = match decode_proofs(felts, offset + u1 + u2 + u3 + u4) {
            Ok(x) => x,
            Err(e) => {
                return Err(e);
            },
        };
        let t = RawSessionToken {
            session,
            session_authorization,
            session_signature,
            guardian_signature,
            proofs,
        };
        proof {
            assert(spec_decode_token(felts@, offset as int) matches Ok((tm, u)) && tm =~~= t@);
        }
        Ok((t, u1 + u2 + u3 + u4 + u5))
    }
}

} // verus!
