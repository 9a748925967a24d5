//! Building arithmetic circuits for zero-knowledge proof systems: variable allocation,
//! operation emission, and witness vectors that line up with the variable numbering.

pub use backend::{Backend, Circuit, CircuitProver, CircuitWitness, Prover, ProverError};
pub use builder::CircuitBuilder;
pub use circuit::CircuitSchema;
pub use initer::VariableIniter;
pub use metadata::{CurveId, CurveType, MetadataInfo, ProvingSystem};
pub use types::{CircuitDefinition, OpCode, Operation, PublicWitness, Witness};
pub use value::FieldValue;
pub use variable::{Variable, VariableType};

pub mod backend;
pub mod builder;
pub mod circuit;
pub mod gnark;
pub mod initer;
pub mod metadata;
pub mod mock;
pub mod types;
pub mod value;
pub mod variable;
pub mod wire;
