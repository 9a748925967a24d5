//! The contract of a proving backend, and the orchestration that carries a typed circuit
//! through it.
use crate::builder::CircuitBuilder;
use crate::circuit::{count_public, element_refs, CircuitSchema};
use crate::initer::Counts;
use crate::metadata::MetadataInfo;
use crate::types::{local_outputs_distinct, ops_of, CircuitDefinition, PublicWitness, Witness};
use crate::value::FieldValue;
use crate::variable::{vars_of, Var, VariableType};
use std::marker::PhantomData;
use vstd::prelude::*;

verus! {

/// A proving backend: it compiles a definition into its own constraint system, generates
/// keys, proves and verifies.
pub trait Backend: Sized {
    type CircuitConstraint;
    type ProvingKey;
    type VerifyingKey;
    type Proof;
    type Error;

    fn new() -> Self;

    /// The field, curve and proving system of the backend.
    fn metadata(&self) -> MetadataInfo;

    /// Translates a definition into the backend's constraint system; fails on a malformed one.
    fn compile(&self, circuit: &CircuitDefinition) -> Result<Self::CircuitConstraint, Self::Error>;

    /// Generates the proving and verifying keys of a compiled circuit.
    fn setup(&self, cs: &Self::CircuitConstraint) -> Result<
        (Self::ProvingKey, Self::VerifyingKey),
        Self::Error,
    >;

    /// Proves that the witness satisfies the constraints.
    fn prove(
        &self,
        cs: &Self::CircuitConstraint,
        pk: &Self::ProvingKey,
        witness: &Witness,
    ) -> Result<Self::Proof, Self::Error>;

    /// Checks a proof against the public values: `Ok(false)` for an invalid proof.
    fn verify(
        &self,
        vk: &Self::VerifyingKey,
        proof: &Self::Proof,
        public_witness: &PublicWitness,
    ) -> Result<bool, Self::Error>;
}

/// A type that describes a circuit's inputs: their layout, and their values in an instance.
pub trait CircuitWitness {
    /// The layout of the inputs, in declaration order.
    fn schema() -> CircuitSchema;

    /// The values of the inputs, in the order of the layout.
    fn witness_values(&self) -> Vec<FieldValue>;
}

/// A circuit: its inputs, and the logic that constrains them.
pub trait Circuit: CircuitWitness {
    /// Emits the circuit's operations over the references of its inputs, which come in the
    /// order of the layout.
    fn define(element: &[VariableType], api: &mut CircuitBuilder);
}

/// What one definition pass yields: the references that the circuit's logic received for
/// its inputs, and the definition.
pub struct DefinedCircuit {
    pub inputs: Vec<VariableType>,
    pub definition: CircuitDefinition,
}

/// Runs one definition pass of the circuit `C` with the layout `schema`: allocates its inputs
/// from a fresh builder, in the order of the layout, lets the circuit emit its operations over
/// them, and returns the definition. Whatever the circuit emits, every reference in the
/// definition lies below its declared count, and no local is the output of two places, also
/// where the logic defines sub-circuits on the same builder.
pub fn define_circuit<C: Circuit>(schema: &CircuitSchema, metadata: MetadataInfo) -> (r: DefinedCircuit)
    ensures
        vars_of(r.inputs@) == element_refs(Counts { public: 0, private: 0, local: 0 }, schema@, false),
        r.definition.wf(),
        local_outputs_distinct(ops_of(r.definition.operations@)),
{
    let n = schema.len();
    assert(n as int <= u64::MAX);
    let mut builder = CircuitBuilder::new(metadata);
    let inputs = builder.create_element(schema, false);
    C::define(inputs.as_slice(), &mut builder);
    DefinedCircuit { inputs, definition: builder.build() }
}

/// Why a circuit prover failed.
#[derive(Debug)]
pub enum ProverError<E> {
    /// The instance does not hold one value per input.
    WitnessLength,
    /// The public values are not one per public input.
    PublicWitnessLength,
    /// The backend failed.
    Backend(E),
}

/// Compiles circuits with one backend.
pub struct Prover<B> {
    backend: B,
}

impl<B: Backend> Prover<B> {
    pub fn new() -> (r: Prover<B>) {
        Prover { backend: B::new() }
    }

    /// Defines the circuit `C` once, with the layout that `C::schema` gives, and compiles the
    /// definition with the backend. The prover keeps that layout, so that the witnesses it
    /// flattens follow the numbering of the inputs in the definition; only the backend can
    /// make it fail.
    pub fn compile_circuit<C: Circuit>(self) -> (r: Result<CircuitProver<B, C>, ProverError<B::Error>>)
        ensures
            r matches Ok(p) ==> p.compiled().wf() && p.inputs() == element_refs(
                Counts { public: 0, private: 0, local: 0 },
                p.layout(),
                false,
            ),
            r matches Err(e) ==> e is Backend,
    {
        let metadata = self.backend.metadata();
        let schema = C::schema();
        let defined = define_circuit::<C>(&schema, metadata);
        let DefinedCircuit { inputs, definition } = defined;
        match self.backend.compile(&definition) {
            Ok(cs) => Ok(
                CircuitProver {
                    backend: self.backend,
                    constraint: cs,
                    definition,
                    schema,
                    inputs: Ghost(vars_of(inputs@)),
                    marker: PhantomData,
                },
            ),
            Err(e) => Err(ProverError::Backend(e)),
        }
    }
}

/// A circuit compiled by a backend, ready for setup, proving and verification.
pub struct CircuitProver<B: Backend, C> {
    backend: B,
    constraint: B::CircuitConstraint,
    definition: CircuitDefinition,
    schema: CircuitSchema,
    inputs: Ghost<Seq<Var>>,
    marker: PhantomData<C>,
}

impl<B: Backend, C> CircuitProver<B, C> {
    /// The definition that was compiled.
    pub closed spec fn compiled(&self) -> CircuitDefinition {
        self.definition
    }

    /// The layout of the circuit's inputs.
    pub closed spec fn layout(&self) -> Seq<bool> {
        self.schema@
    }

    /// The references that the circuit's inputs received in the definition, in the order of
    /// the layout.
    pub closed spec fn inputs(&self) -> Seq<Var> {
        self.inputs@
    }

    /// The definition that was compiled.
    pub fn definition(&self) -> (r: &CircuitDefinition)
        ensures
            *r == self.compiled(),
    {
        &self.definition
    }
}

impl<B: Backend, C: CircuitWitness> CircuitProver<B, C> {
    pub fn setup(&self) -> (r: Result<(B::ProvingKey, B::VerifyingKey), ProverError<B::Error>>)
        ensures
            r matches Err(e) ==> e is Backend,
    {
        match self.backend.setup(&self.constraint) {
            Ok(keys) => Ok(keys),
            Err(e) => Err(ProverError::Backend(e)),
        }
    }

    /// Flattens the instance into a witness and proves it.
    pub fn prove(&self, proving_key: &B::ProvingKey, circuit_witness: &C) -> (r: Result<
        B::Proof,
        ProverError<B::Error>,
    >)
        ensures
            r matches Err(e) ==> e is Backend || e is WitnessLength,
    {
        let values = circuit_witness.witness_values();
        let witness = match self.schema.witness(&values) {
            Some(w) => w,
            None => return Err(ProverError::WitnessLength),
        };
        match self.backend.prove(&self.constraint, proving_key, &witness) {
            Ok(p) => Ok(p),
            Err(e) => Err(ProverError::Backend(e)),
        }
    }

    /// Verifies a proof against the values of the public inputs, in declaration order.
    pub fn verify(
        &self,
        verifying_key: &B::VerifyingKey,
        proof: &B::Proof,
        public_witness: &Vec<FieldValue>,
    ) -> (r: Result<bool, ProverError<B::Error>>)
        ensures
            r matches Err(e) ==> (e is Backend || e is PublicWitnessLength),
            (r matches Err(e) && e is PublicWitnessLength) <==> public_witness@.len()
                != count_public(self.layout(), false),
    {
        let witness = match self.schema.public_witness(public_witness) {
            Some(w) => w,
            None => return Err(ProverError::PublicWitnessLength),
        };
        match self.backend.verify(verifying_key, proof, &witness) {
            Ok(b) => Ok(b),
            Err(e) => Err(ProverError::Backend(e)),
        }
    }
}

} // verus!
