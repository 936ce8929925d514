//! Typed-data hashing ("rev 1") of the session record.
//!
//! Three layers: a domain-free structural hash of the session's fields, a
//! hash of the protocol/chain identity, and the final signable message hash
//! that composes both with a fixed textual prefix and the verifying
//! contract's address. Every layer is a multi-input hash over an ordered
//! list of field elements; the hash primitive itself is the chain's
//! Poseidon function, called through a trusted wrapper.

use crate::felt::Felt252;
use vstd::prelude::*;

verus! {

/// What the multi-input Poseidon hash returns: a single field element,
/// depending on the ordered input values alone.
pub uninterp spec fn poseidon_of(inputs: Seq<int>) -> int;

#[verifier::external_type_specification]
#[verifier::external_body]
pub struct ExOutsideFelt(starknet_crypto::Felt);

/// Relies on starknet_crypto::Felt::from_bytes_le: builds the outside field
/// element whose value is the little-endian 256-bit integer in the bytes.
#[verifier::external_body]
fn felt_to_outside(f: &Felt252) -> starknet_crypto::Felt {
    let mut b = [0u8; 32];
    b[0..8].copy_from_slice(&f.l0.to_le_bytes());
    b[8..16].copy_from_slice(&f.l1.to_le_bytes());
    b[16..24].copy_from_slice(&f.l2.to_le_bytes());
    b[24..32].copy_from_slice(&f.l3.to_le_bytes());
    starknet_crypto::Felt::from_bytes_le(&b)
}

/// Relies on starknet_crypto::Felt::to_bytes_le: the little-endian bytes of
/// a value that the outside type keeps reduced below the field's prime.
#[verifier::external_body]
fn felt_from_outside(x: &starknet_crypto::Felt) -> (r: Felt252)
    ensures
        r.wf(),
{
    let b = x.to_bytes_le();
    Felt252 {
        l0: u64::from_le_bytes(b[0..8].try_into().unwrap()),
        l1: u64::from_le_bytes(b[8..16].try_into().unwrap()),
        l2: u64::from_le_bytes(b[16..24].try_into().unwrap()),
        l3: u64::from_le_bytes(b[24..32].try_into().unwrap()),
    }
}

/// Relies on starknet_crypto::poseidon_hash_many: a deterministic,
/// order-sensitive hash from a sequence of field elements to one field
/// element; the result is a function of the input values alone.
#[verifier::external_body]
fn poseidon_many(inputs: &Vec<Felt252>) -> (r: Felt252)
    requires
        forall|i: int| 0 <= i < inputs@.len() ==> inputs@[i].wf(),
    ensures
        r.wf(),
        r.value() == poseidon_of(inputs@.map_values(|f: Felt252| f.value())),
{
    let lifted: Vec<starknet_crypto::Felt> = inputs.iter().map(felt_to_outside).collect();
    felt_from_outside(&starknet_crypto::poseidon_hash_many(&lifted))
}

/// Type hash of the session record: the chain's keccak of the canonical
/// type string
/// `"Session"("Expires At":"timestamp","Allowed Methods":"merkletree","Metadata":"string","Session Key":"felt")`.
/// Fixed protocol data; a test recomputes it from the string.
pub open spec fn session_type_hash() -> int {
    0x2a7d1ecdf754b100d735189f4969485656c828bfcb863a154c61199caa02434int
}

/// The [`session_type_hash`] constant as a field element.
pub fn session_type_hash_felt() -> (r: Felt252)
    ensures
        r.wf(),
        r.value() == session_type_hash(),
{
    Felt252 {
        l0: 0x54c61199caa02434,
        l1: 0x656c828bfcb863a1,
        l2: 0x0d735189f4969485,
        l3: 0x02a7d1ecdf754b10,
    }
}

/// Type hash of the domain separator: the chain's keccak of
/// `"StarknetDomain"("name":"shortstring","version":"shortstring","chainId":"shortstring","revision":"shortstring")`.
/// Fixed protocol data; a test recomputes it from the string.
pub open spec fn domain_type_hash() -> int {
    0x1ff2f602e42168014d405a94f75e8a93d640751d71d16311266e140d8b0a210int
}

/// The [`domain_type_hash`] constant as a field element.
pub fn domain_type_hash_felt() -> (r: Felt252)
    ensures
        r.wf(),
        r.value() == domain_type_hash(),
{
    Felt252 {
        l0: 0x1266e140d8b0a210,
        l1: 0x3d640751d71d1631,
        l2: 0x14d405a94f75e8a9,
        l3: 0x01ff2f602e421680,
    }
}

/// The protocol name `SessionAccount.session` as a short string: its ASCII
/// bytes read as a big-endian integer.
pub open spec fn domain_name() -> int {
    0x53657373696f6e4163636f756e742e73657373696f6eint
}

/// The [`domain_name`] constant as a field element.
pub fn domain_name_felt() -> (r: Felt252)
    ensures
        r.wf(),
        r.value() == domain_name(),
{
    Felt252 { l0: 0x2e73657373696f6e, l1: 0x6e4163636f756e74, l2: 0x000053657373696f, l3: 0 }
}

/// The protocol version `1` as a short string.
pub open spec fn domain_version() -> int {
    0x31
}

/// The [`domain_version`] constant as a field element.
pub fn domain_version_felt() -> (r: Felt252)
    ensures
        r.wf(),
        r.value() == domain_version(),
{
    Felt252 { l0: 0x31, l1: 0, l2: 0, l3: 0 }
}

/// The short string `StarkNet Message`, the fixed marker that separates
/// typed protocol messages from arbitrary hashes.
pub open spec fn starknet_message_prefix() -> int {
    0x537461726b4e6574204d657373616765int
}

/// The [`starknet_message_prefix`] constant as a field element.
pub fn starknet_message_prefix_felt() -> (r: Felt252)
    ensures
        r.wf(),
        r.value() == starknet_message_prefix(),
{
    Felt252 { l0: 0x204d657373616765, l1: 0x537461726b4e6574, l2: 0, l3: 0 }
}

/// The session record: a scoped, time-limited delegation of signing
/// authority. The merkle root, metadata hash and key identifier are
/// computed by outside collaborators and opaque to this crate.
#[derive(Clone, Copy, Debug, PartialEq, Eq, Structural)]
pub struct RawSession {
    pub expires_at: u64,
    pub allowed_methods_root: Felt252,
    pub metadata_hash: Felt252,
    pub session_key_guid: Felt252,
}

/// The protocol/chain identity record mixed into a message hash to prevent
/// cross-protocol and cross-chain replay. Built fresh per hash computation;
/// never stored.
#[derive(Clone, Copy, Debug, PartialEq, Eq, Structural)]
pub struct StarknetDomain {
    pub name: Felt252,
    pub version: Felt252,
    pub chain_id: Felt252,
    pub revision: Felt252,
}

/// The structural hash of a session: Poseidon over the type-hash constant
/// followed by the four fields in declared order.
pub open spec fn spec_struct_hash(s: RawSession) -> int {
    poseidon_of(
        seq![
            session_type_hash(),
            s.expires_at as int,
            s.allowed_methods_root.value(),
            s.metadata_hash.value(),
            s.session_key_guid.value(),
        ],
    )
}

/// The structural hash of a domain separator: Poseidon over its own
/// type-hash constant followed by the four fields in declared order.
pub open spec fn spec_domain_struct_hash(d: StarknetDomain) -> int {
    poseidon_of(
        seq![
            domain_type_hash(),
            d.name.value(),
            d.version.value(),
            d.chain_id.value(),
            d.revision.value(),
        ],
    )
}

/// The domain hash for a chain: the domain separator of this protocol's
/// fixed name and version, the given chain, and revision 1.
pub open spec fn spec_domain_hash(chain_id: int) -> int {
    poseidon_of(seq![domain_type_hash(), domain_name(), domain_version(), chain_id, 1])
}

/// The final signable hash: Poseidon over the message prefix, the domain
/// hash, the verifying contract's address, and the session's structural
/// hash. It binds the session to one chain and one verifying contract.
pub open spec fn spec_message_hash(s: RawSession, chain_id: int, contract_address: int) -> int {
    poseidon_of(
        seq![
            starknet_message_prefix(),
            spec_domain_hash(chain_id),
            contract_address,
            spec_struct_hash(s),
        ],
    )
}

impl RawSession {
    /// All field elements of the record lie in the field.
    pub open spec fn wf(self) -> bool {
        self.allowed_methods_root.wf() && self.metadata_hash.wf() && self.session_key_guid.wf()
    }

    /// The domain-free structural hash of this session's fields.
    pub fn get_struct_hash_rev_1(&self) -> (r: Felt252)
        requires
            self.wf(),
        ensures
            r.wf(),
            r.value() == spec_struct_hash(*self),
    {
        let mut inputs: Vec<Felt252> = Vec::new();
        inputs.push(session_type_hash_felt());
        inputs.push(Felt252::from_u64(self.expires_at));
        inputs.push(self.allowed_methods_root);
        inputs.push(self.metadata_hash);
        inputs.push(self.session_key_guid);
        let r = poseidon_many(&inputs);
        proof {
            assert(inputs@.map_values(|f: Felt252| f.value()) =~= seq![
                session_type_hash(),
                self.expires_at as int,
                self.allowed_methods_root.value(),
                self.metadata_hash.value(),
                self.session_key_guid.value(),
            ]);
        }
        r
    }

    /// The signable message hash of this session on the given chain, for
    /// the given verifying contract.
    pub fn get_message_hash_rev_1(&self, chain_id: Felt252, contract_address: Felt252) -> (r: Felt252)
        requires
            self.wf(),
            chain_id.wf(),
            contract_address.wf(),
        ensures
            r.wf(),
            r.value() == spec_message_hash(*self, chain_id.value(), contract_address.value()),
    {
        let domain = StarknetDomain {
            name: domain_name_felt(),
            version: domain_version_felt(),
            chain_id,
            revision: Felt252::from_u64(1),
        };
        let domain_hash = domain.get_struct_hash_rev_1();
        let struct_hash = self.get_struct_hash_rev_1();
        let mut inputs: Vec<Felt252> = Vec::new();
        inputs.push(starknet_message_prefix_felt());
        inputs.push(domain_hash);
        inputs.push(contract_address);
        inputs.push(struct_hash);
        let r = poseidon_many(&inputs);
        proof {
            assert(seq![
                domain_type_hash(),
                domain.name.value(),
                domain.version.value(),
                domain.chain_id.value(),
                domain.revision.value(),
            ] =~= seq![
                domain_type_hash(),
                domain_name(),
                domain_version(),
                chain_id.value(),
                1int,
            ]);
            assert(inputs@.map_values(|f: Felt252| f.value()) =~= seq![
                starknet_message_prefix(),
                spec_domain_hash(chain_id.value()),
                contract_address.value(),
                spec_struct_hash(*self),
            ]);
        }
        r
    }
}

impl StarknetDomain {
    /// All field elements of the record lie in the field.
    pub open spec fn wf(self) -> bool {
        self.name.wf() && self.version.wf() && self.chain_id.wf() && self.revision.wf()
    }

    /// The domain-free structural hash of this domain separator's fields.
    pub fn get_struct_hash_rev_1(&self) -> (r: Felt252)
        requires
            self.wf(),
        ensures
            r.wf(),
            r.value() == spec_domain_struct_hash(*self),
    {
        let mut inputs: Vec<Felt252> = Vec::new();
        inputs.push(domain_type_hash_felt());
        inputs.push(self.name);
        inputs.push(self.version);
        inputs.push(self.chain_id);
        inputs.push(self.revision);
        let r = poseidon_many(&inputs);
        proof {
            assert(inputs@.map_values(|f: Felt252| f.value()) =~= seq![
                domain_type_hash(),
                self.name.value(),
                self.version.value(),
                self.chain_id.value(),
                self.revision.value(),
            ]);
        }
        r
    }
}

/// The message hash is deterministic: any two results of the message hash
/// on the same session, chain and contract are the same field element.
pub proof fn lemma_message_hash_deterministic(
    r1: Felt252,
    r2: Felt252,
    s: RawSession,
    chain_id: Felt252,
    contract_address: Felt252,
)
    requires
        r1.value() == spec_message_hash(s, chain_id.value(), contract_address.value()),
        r2.value() == spec_message_hash(s, chain_id.value(), contract_address.value()),
    ensures
        r1 == r2,
{
    crate::felt::lemma_value_determines_limbs(r1, r2);
}

} // verus!
