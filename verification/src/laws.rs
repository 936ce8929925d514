//! The codec's global guarantees: decoding inverts encoding, and no
//! proper prefix of an encoding decodes.

use crate::codec::{
    felt_fits_usize, spec_decode_felts, spec_decode_proof_entries,
    spec_decode_proofs, spec_decode_session, spec_decode_sig, spec_decode_token,
    spec_encode_felts, spec_encode_proof_entries, spec_encode_proofs, spec_encode_session,
    spec_encode_sig, spec_encode_token, DecodeError, SessionTokenModel, SignerSignature,
};
use crate::felt::{felt_of_u64, Felt252};
use crate::hash::RawSession;
use vstd::prelude::*;

verus! {

/// Wherever a session's encoding lies in a sequence, decoding there
/// recovers the session and consumes exactly its four elements.
proof fn lemma_decode_session_at(x: RawSession, s: Seq<Felt252>, i: int)
    requires
        0 <= i,
        i + 4 <= s.len(),
        s.subrange(i, i + 4) == spec_encode_session(x),
    ensures
        spec_decode_session(s, i) == Ok::<_, DecodeError>((x, 4int)),
{
    assert(s[i] == spec_encode_session(x)[0]);
    assert(s[i + 1] == spec_encode_session(x)[1]);
    assert(s[i + 2] == spec_encode_session(x)[2]);
    assert(s[i + 3] == spec_encode_session(x)[3]);
}

/// Wherever a length-prefixed sequence's encoding lies, decoding there
/// recovers the sequence and consumes the prefix plus its elements.
proof fn lemma_decode_felts_at(v: Seq<Felt252>, s: Seq<Felt252>, i: int)
    requires
        0 <= i,
        v.len() <= usize::MAX,
        i + 1 + v.len() <= s.len(),
        s.subrange(i, i + 1 + v.len()) == spec_encode_felts(v),
    ensures
        spec_decode_felts(s, i) == Ok::<_, DecodeError>((v, 1 + v.len() as int)),
{
    assert(s[i] == spec_encode_felts(v)[0]);
    assert(s[i] == felt_of_u64(v.len() as u64));
    assert(felt_fits_usize(s[i]));
    assert(s[i].l0 == v.len());
    assert(s.subrange(i + 1, i + 1 + v.len()) =~= v) by {
        assert forall|j: int| 0 <= j < v.len() implies s[i + 1 + j] == v[j] by {
            assert(s[i + 1 + j] == spec_encode_felts(v)[1 + j]);
        }
    }
}

/// Wherever a signature's encoding lies, decoding there recovers the
/// signature and consumes exactly its tag and fields.
proof fn lemma_decode_sig_at(g: SignerSignature, s: Seq<Felt252>, i: int)
    requires
        0 <= i,
        i + spec_encode_sig(g).len() <= s.len(),
        s.subrange(i, i + spec_encode_sig(g).len()) == spec_encode_sig(g),
    ensures
        spec_decode_sig(s, i) == Ok::<_, DecodeError>((g, spec_encode_sig(g).len() as int)),
{
    let e = spec_encode_sig(g);
    assert forall|j: int| 0 <= j < e.len() implies s[i + j] == e[j] by {
        assert(s.subrange(i, i + e.len())[j] == e[j]);
    }
    match g {
        SignerSignature::Starknet { .. } => {
            assert(s[i] == felt_of_u64(0));
        },
        SignerSignature::Secp256r1 { .. } => {
            assert(s[i] == felt_of_u64(1));
            assert(s[i] != felt_of_u64(0));
        },
    }
}

/// Wherever the concatenated encodings of a list of paths lie, decoding
/// that many entries there recovers the paths and consumes the whole
/// concatenation.
proof fn lemma_decode_proof_entries_at(p: Seq<Seq<Felt252>>, s: Seq<Felt252>, i: int)
    requires
        0 <= i,
        forall|j: int| 0 <= j < p.len() ==> #[trigger] p[j].len() <= usize::MAX,
        i + spec_encode_proof_entries(p).len() <= s.len(),
        s.subrange(i, i + spec_encode_proof_entries(p).len()) == spec_encode_proof_entries(p),
    ensures
        spec_decode_proof_entries(s, i, p.len()) == Ok::<_, DecodeError>(
            (p, spec_encode_proof_entries(p).len() as int),
        ),
    decreases p.len(),
{
    if p.len() == 0 {
        assert(p =~= Seq::<Seq<Felt252>>::empty());
    } else {
        let p0 = p.first();
        let pd = p.drop_first();
        let e = spec_encode_proof_entries(p);
        let e0 = spec_encode_felts(p0);
        let erest = spec_encode_proof_entries(pd);
        assert(e == e0 + erest);
        assert(p0.len() <= usize::MAX);
        assert forall|j: int| 0 <= j < e0.len() implies s.subrange(i, i + e0.len())[j] == e0[j] by {
            assert(s[i + j] == s.subrange(i, i + e.len())[j]);
            assert(e[j] == e0[j]);
        }
        assert(s.subrange(i, i + 1 + p0.len()) =~= e0);
        lemma_decode_felts_at(p0, s, i);
        let i2 = i + 1 + p0.len();
        assert forall|j: int| 0 <= j < erest.len() implies s.subrange(i2, i2 + erest.len())[j]
            == erest[j] by {
            assert(s[i2 + j] == s.subrange(i, i + e.len())[e0.len() + j]);
            assert(e[e0.len() + j] == erest[j]);
        }
        assert(s.subrange(i2, i2 + erest.len()) =~= erest);
        assert(forall|j: int| 0 <= j < pd.len() ==> #[trigger] pd[j].len() <= usize::MAX) by {
            assert(forall|j: int| 0 <= j < pd.len() ==> pd[j] == #[trigger] p[j + 1]);
        }
        lemma_decode_proof_entries_at(pd, s, i2);
        assert(seq![p0] + pd =~= p);
        assert((1 + p0.len()) + erest.len() == e.len());
    }
}

/// Wherever the proof list's encoding lies, decoding there recovers the
/// list and consumes its count and every entry.
proof fn lemma_decode_proofs_at(p: Seq<Seq<Felt252>>, s: Seq<Felt252>, i: int)
    requires
        0 <= i,
        p.len() <= usize::MAX,
        forall|j: int| 0 <= j < p.len() ==> #[trigger] p[j].len() <= usize::MAX,
        i + spec_encode_proofs(p).len() <= s.len(),
        s.subrange(i, i + spec_encode_proofs(p).len()) == spec_encode_proofs(p),
    ensures
        spec_decode_proofs(s, i) == Ok::<_, DecodeError>(
            (p, spec_encode_proofs(p).len() as int),
        ),
{
    let e = spec_encode_proofs(p);
    let erest = spec_encode_proof_entries(p);
    assert(s[i] == s.subrange(i, i + e.len())[0]);
    assert(s[i] == felt_of_u64(p.len() as u64));
    assert(felt_fits_usize(s[i]));
    assert(s[i].l0 == p.len());
    assert forall|j: int| 0 <= j < erest.len() implies s.subrange(i + 1, i + 1 + erest.len())[j]
        == erest[j] by {
        assert(s[i + 1 + j] == s.subrange(i, i + e.len())[1 + j]);
        assert(e[1 + j] == erest[j]);
    }
    assert(s.subrange(i + 1, i + 1 + erest.len()) =~= erest);
    lemma_decode_proof_entries_at(p, s, i + 1);
}

/// Decoding inverts encoding: for any credential whose sequences fit in
/// machine-size vectors, decoding its encoding from the start yields the
/// same credential and consumes the encoding's whole length.
pub proof fn lemma_encode_decode_round_trip(t: SessionTokenModel)
    requires
        t.fits(),
    ensures
        spec_decode_token(spec_encode_token(t), 0) == Ok::<_, DecodeError>(
            (t, spec_encode_token(t).len() as int),
        ),
{
    let s = spec_encode_token(t);
    let e1 = spec_encode_session(t.session);
    let e2 = spec_encode_felts(t.session_authorization);
    let e3 = spec_encode_sig(t.session_signature);
    let e4 = spec_encode_sig(t.guardian_signature);
    let e5 = spec_encode_proofs(t.proofs);
    let b1 = e1.len() as int;
    let b2 = b1 + e2.len();
    let b3 = b2 + e3.len();
    let b4 = b3 + e4.len();
    let b5 = b4 + e5.len();
    assert(s.len() == b5);
    assert(s.subrange(0, b1) =~= e1);
    assert(s.subrange(b1, b2) =~= e2);
    assert(s.subrange(b2, b3) =~= e3);
    assert(s.subrange(b3, b4) =~= e4);
    assert(s.subrange(b4, b5) =~= e5);
    lemma_decode_session_at(t.session, s, 0);
    lemma_decode_felts_at(t.session_authorization, s, b1);
    lemma_decode_sig_at(t.session_signature, s, b2);
    lemma_decode_sig_at(t.guardian_signature, s, b3);
    lemma_decode_proofs_at(t.proofs, s, b4);
    let d = spec_decode_token(s, 0);
    assert(d matches Ok((m, u)) && m =~~= t && u == b5);
}

} // verus!

verus! {

/// A sequence that ends inside a length-prefixed sequence's encoding,
/// agreeing with it as far as it goes, is rejected.
proof fn lemma_truncated_felts_rejected(v: Seq<Felt252>, s: Seq<Felt252>, i: int)
    requires
        0 <= i <= s.len(),
        v.len() <= usize::MAX,
        s.len() < i + 1 + v.len(),
        forall|k: int| i <= k < s.len() ==> #[trigger] s[k] == spec_encode_felts(v)[k - i],
    ensures
        spec_decode_felts(s, i) is Err,
{
    if i < s.len() {
        assert(s[i] == spec_encode_felts(v)[0]);
        assert(s[i] == felt_of_u64(v.len() as u64));
        assert(felt_fits_usize(s[i]));
        assert(s[i].l0 == v.len());
    }
}

/// A sequence that ends inside a signature's encoding, agreeing with it
/// as far as it goes, is rejected.
proof fn lemma_truncated_sig_rejected(g: SignerSignature, s: Seq<Felt252>, i: int)
    requires
        0 <= i <= s.len(),
        s.len() < i + spec_encode_sig(g).len(),
        forall|k: int| i <= k < s.len() ==> #[trigger] s[k] == spec_encode_sig(g)[k - i],
    ensures
        spec_decode_sig(s, i) is Err,
{
    if i < s.len() {
        assert(s[i] == spec_encode_sig(g)[0]);
        match g {
            SignerSignature::Starknet { .. } => {
                assert(s[i] == felt_of_u64(0));
                assert(spec_encode_sig(g).len() == 4);
            },
            SignerSignature::Secp256r1 { .. } => {
                assert(s[i] == felt_of_u64(1));
                assert(s[i] != felt_of_u64(0));
                assert(spec_encode_sig(g).len() == 7);
            },
        }
    }
}

/// A sequence that ends inside the concatenated proof-path encodings,
/// agreeing with them as far as it goes, is rejected.
proof fn lemma_truncated_entries_rejected(p: Seq<Seq<Felt252>>, s: Seq<Felt252>, i: int)
    requires
        0 <= i <= s.len(),
        forall|j: int| 0 <= j < p.len() ==> #[trigger] p[j].len() <= usize::MAX,
        s.len() < i + spec_encode_proof_entries(p).len(),
        forall|k: int| i <= k < s.len() ==> #[trigger] s[k] == spec_encode_proof_entries(p)[k - i],
    ensures
        spec_decode_proof_entries(s, i, p.len()) is Err,
    decreases p.len(),
{
    let e = spec_encode_proof_entries(p);
    if p.len() == 0 {
        assert(false);
    } else {
        let p0 = p.first();
        let pd = p.drop_first();
        let e0 = spec_encode_felts(p0);
        let erest = spec_encode_proof_entries(pd);
        assert(e == e0 + erest);
        assert(p0.len() <= usize::MAX);
        if s.len() < i + e0.len() {
            assert forall|k: int| i <= k < s.len() implies s[k] == e0[k - i] by {
                assert(s[k] == e[k - i]);
                assert(e[k - i] == e0[k - i]);
            }
            lemma_truncated_felts_rejected(p0, s, i);
        } else {
            assert forall|j: int| 0 <= j < e0.len() implies s.subrange(i, i + e0.len())[j]
                == e0[j] by {
                assert(s[i + j] == e[j]);
                assert(e[j] == e0[j]);
            }
            assert(s.subrange(i, i + 1 + p0.len()) =~= e0);
            lemma_decode_felts_at(p0, s, i);
            let i2 = i + 1 + p0.len();
            assert(forall|j: int| 0 <= j < pd.len() ==> #[trigger] pd[j].len() <= usize::MAX) by {
                assert(forall|j: int| 0 <= j < pd.len() ==> pd[j] == #[trigger] p[j + 1]);
            }
            assert forall|k: int| i2 <= k < s.len() implies s[k] == erest[k - i2] by {
                assert(s[k] == e[k - i]);
                assert(e[e0.len() + (k - i2)] == erest[k - i2]);
            }
            lemma_truncated_entries_rejected(pd, s, i2);
        }
    }
}

/// A sequence that ends inside the proof list's encoding, agreeing with
/// it as far as it goes, is rejected.
proof fn lemma_truncated_proofs_rejected(p: Seq<Seq<Felt252>>, s: Seq<Felt252>, i: int)
    requires
        0 <= i <= s.len(),
        p.len() <= usize::MAX,
        forall|j: int| 0 <= j < p.len() ==> #[trigger] p[j].len() <= usize::MAX,
        s.len() < i + spec_encode_proofs(p).len(),
        forall|k: int| i <= k < s.len() ==> #[trigger] s[k] == spec_encode_proofs(p)[k - i],
    ensures
        spec_decode_proofs(s, i) is Err,
{
    let e = spec_encode_proofs(p);
    let erest = spec_encode_proof_entries(p);
    if i < s.len() {
        assert(s[i] == e[0]);
        assert(s[i] == felt_of_u64(p.len() as u64));
        assert(felt_fits_usize(s[i]));
        assert(s[i].l0 == p.len());
        assert forall|k: int| i + 1 <= k < s.len() implies s[k] == erest[k - (i + 1)] by {
            assert(s[k] == e[k - i]);
            assert(e[1 + (k - (i + 1))] == erest[k - (i + 1)]);
        }
        lemma_truncated_entries_rejected(p, s, i + 1);
    }
}

/// Truncation is rejected: decoding any proper prefix of a credential's
/// encoding fails with an error.
pub proof fn lemma_truncation_rejected(t: SessionTokenModel, n: int)
    requires
        t.fits(),
        0 <= n < spec_encode_token(t).len(),
    ensures
        spec_decode_token(spec_encode_token(t).take(n), 0) is Err,
{
    let s = spec_encode_token(t);
    let s2 = s.take(n);
    let e1 = spec_encode_session(t.session);
    let e2 = spec_encode_felts(t.session_authorization);
    let e3 = spec_encode_sig(t.session_signature);
    let e4 = spec_encode_sig(t.guardian_signature);
    let e5 = spec_encode_proofs(t.proofs);
    let b1 = e1.len() as int;
    let b2 = b1 + e2.len();
    let b3 = b2 + e3.len();
    let b4 = b3 + e4.len();
    let b5 = b4 + e5.len();
    assert(s.len() == b5);
    assert(s.subrange(0, b1) =~= e1);
    assert(s.subrange(b1, b2) =~= e2);
    assert(s.subrange(b2, b3) =~= e3);
    assert(s.subrange(b3, b4) =~= e4);
    assert(s.subrange(b4, b5) =~= e5);
    if n < b1 {
        assert(spec_decode_session(s2, 0) is Err);
    } else {
        assert(s2.subrange(0, b1) =~= e1);
        lemma_decode_session_at(t.session, s2, 0);
        if n < b2 {
            assert forall|k: int| b1 <= k < n implies s2[k] == e2[k - b1] by {
                assert(s2[k] == s[k]);
                assert(s.subrange(b1, b2)[k - b1] == e2[k - b1]);
            }
            lemma_truncated_felts_rejected(t.session_authorization, s2, b1);
        } else {
            assert(s2.subrange(b1, b2) =~= e2);
            lemma_decode_felts_at(t.session_authorization, s2, b1);
            if n < b3 {
                assert forall|k: int| b2 <= k < n implies s2[k] == e3[k - b2] by {
                    assert(s2[k] == s[k]);
                    assert(s.subrange(b2, b3)[k - b2] == e3[k - b2]);
                }
                lemma_truncated_sig_rejected(t.session_signature, s2, b2);
            } else {
                assert(s2.subrange(b2, b3) =~= e3);
                lemma_decode_sig_at(t.session_signature, s2, b2);
                if n < b4 {
                    assert forall|k: int| b3 <= k < n implies s2[k] == e4[k - b3] by {
                        assert(s2[k] == s[k]);
                        assert(s.subrange(b3, b4)[k - b3] == e4[k - b3]);
                    }
                    lemma_truncated_sig_rejected(t.guardian_signature, s2, b3);
                } else {
                    assert(s2.subrange(b3, b4) =~= e4);
                    lemma_decode_sig_at(t.guardian_signature, s2, b3);
                    assert forall|k: int| b4 <= k < n implies s2[k] == e5[k - b4] by {
                        assert(s2[k] == s[k]);
                        assert(s.subrange(b4, b5)[k - b4] == e5[k - b4]);
                    }
                    lemma_truncated_proofs_rejected(t.proofs, s2, b4);
                }
            }
        }
    }
}

} // verus!
