//! A backend for tests: no cryptography; a proof is the SHA3-256 digest of the public
//! witness in the wire format.
use crate::backend::Backend;
use crate::metadata::{CurveType, MetadataInfo, ProvingSystem};
use crate::types::{values_of, CircuitDefinition, PublicWitness, Witness};
use crate::wire::wire_public_witness;
use vstd::prelude::*;

verus! {

/// The SHA3-256 digest of some bytes.
pub uninterp spec fn sha3_256_of(data: Seq<u8>) -> Seq<u8>;

/// Relies on sha3's `Sha3_256` through `Digest::digest`: the SHA3-256 digest of the bytes,
/// 32 bytes long.
#[verifier::external_body]
fn sha3_256(data: &[u8]) -> (r: Vec<u8>)
    ensures
        r@ == sha3_256_of(data@),
        r@.len() == 32,
{
    <sha3::Sha3_256 as sha3::Digest>::digest(data).to_vec()
}

/// The mock proof of a sequence of public values.
pub open spec fn mock_proof(public: Seq<int>) -> Seq<u8> {
    sha3_256_of(wire_public_witness(public))
}

/// The error type of the mock backend, which no operation of it returns.
#[derive(Debug)]
pub struct Error;

/// A backend with no cryptographic security, for tests: it proves any witness, and a proof
/// verifies exactly against the public values it was made from.
#[derive(Debug, Clone, Copy)]
pub struct MockProverBackend;

impl MockProverBackend {
    /// The proof of a witness: the digest of its public part in the wire format.
    pub fn proof_of(witness: &Witness) -> (r: Vec<u8>)
        ensures
            r@ == mock_proof(values_of(witness.public@)),
    {
        let public = witness.to_public();
        let bytes = public.to_wire();
        sha3_256(bytes.as_slice())
    }

    /// Whether `proof` is the proof of these public values.
    pub fn check(proof: &Vec<u8>, public_witness: &PublicWitness) -> (r: bool)
        ensures
            r == (proof@ == mock_proof(values_of(public_witness.public@))),
    {
        let bytes = public_witness.to_wire();
        let expected = sha3_256(bytes.as_slice());
        bytes_equal(proof, &expected)
    }
}

/// Byte-wise equality.
fn bytes_equal(a: &Vec<u8>, b: &Vec<u8>) -> (r: bool)
    ensures
        r == (a@ == b@),
{
    if a.len() != b.len() {
        return false;
    }
    let mut i: usize = 0;
    while i < a.len()
        invariant
            i <= a@.len(),
            a@.len() == b@.len(),
            forall|j: int| 0 <= j < i ==> a@[j] == b@[j],
        decreases a@.len() - i,
    {
        if a[i] != b[i] {
            return false;
        }
        i += 1;
    }
    assert(a@ =~= b@);
    true
}

impl Backend for MockProverBackend {
    type CircuitConstraint = CircuitDefinition;
    type ProvingKey = ();
    type VerifyingKey = ();
    type Proof = Vec<u8>;
    type Error = Error;

    fn new() -> (r: MockProverBackend) {
        MockProverBackend
    }

    fn metadata(&self) -> (r: MetadataInfo) {
        MetadataInfo::for_curve(CurveType::Mock, ProvingSystem::Mock)
    }

    /// The definition itself stands for the compiled circuit.
    fn compile(&self, circuit: &CircuitDefinition) -> (r: Result<CircuitDefinition, Error>) {
        Ok(circuit.clone())
    }

    fn setup(&self, cs: &CircuitDefinition) -> (r: Result<((), ()), Error>) {
        Ok(((), ()))
    }

    fn prove(&self, cs: &CircuitDefinition, pk: &(), witness: &Witness) -> (r: Result<Vec<u8>, Error>) {
        Ok(MockProverBackend::proof_of(witness))
    }

    fn verify(&self, vk: &(), proof: &Vec<u8>, public_witness: &PublicWitness) -> (r: Result<
        bool,
        Error,
    >) {
        Ok(MockProverBackend::check(proof, public_witness))
    }
}

} // verus!
