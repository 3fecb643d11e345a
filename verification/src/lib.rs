//! Transactional execution layer with capability-based memory access for zk-AluVM.
//!
//! A contract is a codex, which holds the verification programs, and a sequence of operations,
//! each of which spends destructible memory cells, reads immutable ones and defines new cells.
//! A verification program sees one operation through iterators over its inputs and outputs;
//! the instructions which drive the iterators are those of the USONIC instruction set.
//! Contracts, operations and codices are known by identifiers which commit to their canonical
//! bytes.

pub mod codex;
pub mod commit;
pub mod confined;
pub mod contract;
pub mod encoding;
pub mod ids;
pub mod isa;
pub mod library;
pub mod memory;
pub mod operation;
pub mod state;
pub mod text;

pub use codex::{
    Call, CallError, CallView, Codex, IoCat, Verifiers, VmContext, CATEGORY_MAX_LEN,
};
pub use confined::{OverLimit, SmallVec, Text};
pub use contract::{
    Contract, ContractName, ContractPrivate, Ffv, HeaderReserved, Private, ProofOfPubl,
};
pub use encoding::{Canonical, DecodeError};
pub use ids::{AccessId, CallId, CodexId, ContractId, GenesisId, Opid};
pub use isa::instr::{CtrlInstr, Instr, UsonicInstr, UsonicOp, ISA_ULTRASONIC};
pub use isa::machine::{
    BaseCore, ExecStep, FieldOrder, RegE, Status, UsonicCore, FIELD_ORDER_25519, FIELD_ORDER_SECP,
    FIELD_ORDER_STARK,
};
pub use library::{LibId, LibSite};
pub use memory::{CellKind, CellMap, Memory, MemoryError};
pub use operation::{CellAddr, Genesis, Input, Operation, ParseAddrError};
pub use state::{fe128, AuthToken, RawData, StateCell, StateData, StateValue};
