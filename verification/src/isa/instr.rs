//! The instructions: those which walk through the state of an operation, and the families of the
//! base machine beside them.

use vstd::prelude::*;
use zkaluvm::alu::isa::{CtrlInstr as AluCtrlInstr, ReservedInstr};
use zkaluvm::alu::LibId as AluLibId;
use zkaluvm::gfa::FieldInstr;

use crate::codex::IoCat;
use crate::text::str_eq;

verus! {

/// Name of the instruction set extension.
pub const ISA_ULTRASONIC: &'static str = "USONIC";

/// Instructions which give a program access to the state of the operation under verification.
///
/// The access is that of an iterator, not of an index: the items of each category are met in
/// their order, so that none can be passed over as long as the iterator is driven to its end.
#[derive(Copy, Clone, PartialEq, Eq, Structural, Hash, Debug)]
#[non_exhaustive]
pub enum UsonicInstr {
    /// Checks whether the destructible input has a next item and sets `CO` accordingly.
    CkNxIRo,
    /// Checks whether the immutable input has a next item and sets `CO` accordingly.
    CkNxIAo,
    /// Checks whether the destructible output has a next item and sets `CO` accordingly.
    CkNxORo,
    /// Checks whether the immutable output has a next item and sets `CO` accordingly.
    CkNxOAo,
    /// Loads the next item of the destructible input into `EA` to `ED`.
    LdIRo,
    /// Loads the next item of the immutable input into `EA` to `ED`.
    LdIAo,
    /// Loads the next item of the destructible output into `EA` to `ED`.
    LdORo,
    /// Loads the next item of the immutable output into `EA` to `ED`.
    LdOAo,
    /// Puts the iterator over the destructible input back to the start.
    RstIRo,
    /// Puts the iterator over the immutable input back to the start.
    RstIAo,
    /// Puts the iterator over the destructible output back to the start.
    RstORo,
    /// Puts the iterator over the immutable output back to the start.
    RstOAo,
}

/// What an instruction does with the iterator of its category.
#[derive(Copy, Clone, PartialEq, Eq, Structural, Hash, Debug)]
pub enum UsonicOp {
    /// Test for a next item.
    CheckNext,
    /// Load the next item.
    Load,
    /// Go back to the start.
    Reset,
}

impl UsonicInstr {
    /// The category of state which the instruction is about.
    pub open spec fn spec_category(self) -> IoCat {
        match self {
            UsonicInstr::CkNxIRo | UsonicInstr::LdIRo | UsonicInstr::RstIRo => IoCat::IN_RO,
            UsonicInstr::CkNxIAo | UsonicInstr::LdIAo | UsonicInstr::RstIAo => IoCat::IN_AO,
            UsonicInstr::CkNxORo | UsonicInstr::LdORo | UsonicInstr::RstORo => IoCat::OUT_RO,
            UsonicInstr::CkNxOAo | UsonicInstr::LdOAo | UsonicInstr::RstOAo => IoCat::OUT_AO,
        }
    }

    /// What the instruction does with the iterator of its category.
    pub open spec fn spec_op(self) -> UsonicOp {
        match self {
            UsonicInstr::CkNxIRo
            | UsonicInstr::CkNxIAo
            | UsonicInstr::CkNxORo
            | UsonicInstr::CkNxOAo => UsonicOp::CheckNext,
            UsonicInstr::LdIRo | UsonicInstr::LdIAo | UsonicInstr::LdORo | UsonicInstr::LdOAo => {
                UsonicOp::Load
            },
            UsonicInstr::RstIRo
            | UsonicInstr::RstIAo
            | UsonicInstr::RstORo
            | UsonicInstr::RstOAo => UsonicOp::Reset,
        }
    }

    /// The instruction which does `op` on the category `cat`.
    pub open spec fn spec_compose(op: UsonicOp, cat: IoCat) -> UsonicInstr {
        match (op, cat) {
            (UsonicOp::CheckNext, IoCat::IN_RO) => UsonicInstr::CkNxIRo,
            (UsonicOp::CheckNext, IoCat::IN_AO) => UsonicInstr::CkNxIAo,
            (UsonicOp::CheckNext, IoCat::OUT_RO) => UsonicInstr::CkNxORo,
            (UsonicOp::CheckNext, IoCat::OUT_AO) => UsonicInstr::CkNxOAo,
            (UsonicOp::Load, IoCat::IN_RO) => UsonicInstr::LdIRo,
            (UsonicOp::Load, IoCat::IN_AO) => UsonicInstr::LdIAo,
            (UsonicOp::Load, IoCat::OUT_RO) => UsonicInstr::LdORo,
            (UsonicOp::Load, IoCat::OUT_AO) => UsonicInstr::LdOAo,
            (UsonicOp::Reset, IoCat::IN_RO) => UsonicInstr::RstIRo,
            (UsonicOp::Reset, IoCat::IN_AO) => UsonicInstr::RstIAo,
            (UsonicOp::Reset, IoCat::OUT_RO) => UsonicInstr::RstORo,
            (UsonicOp::Reset, IoCat::OUT_AO) => UsonicInstr::RstOAo,
        }
    }

    /// The category of state which the instruction is about.
    pub fn category(&self) -> (cat: IoCat)
        ensures
            cat == self.spec_category(),
    {
        match self {
            UsonicInstr::CkNxIRo | UsonicInstr::LdIRo | UsonicInstr::RstIRo => IoCat::IN_RO,
            UsonicInstr::CkNxIAo | UsonicInstr::LdIAo | UsonicInstr::RstIAo => IoCat::IN_AO,
            UsonicInstr::CkNxORo | UsonicInstr::LdORo | UsonicInstr::RstORo => IoCat::OUT_RO,
            UsonicInstr::CkNxOAo | UsonicInstr::LdOAo | UsonicInstr::RstOAo => IoCat::OUT_AO,
        }
    }

    /// What the instruction does with the iterator of its category.
    pub fn op(&self) -> (op: UsonicOp)
        ensures
            op == self.spec_op(),
    {
        match self {
            UsonicInstr::CkNxIRo
            | UsonicInstr::CkNxIAo
            | UsonicInstr::CkNxORo
            | UsonicInstr::CkNxOAo => UsonicOp::CheckNext,
            UsonicInstr::LdIRo | UsonicInstr::LdIAo | UsonicInstr::LdORo | UsonicInstr::LdOAo => {
                UsonicOp::Load
            },
            UsonicInstr::RstIRo
            | UsonicInstr::RstIAo
            | UsonicInstr::RstORo
            | UsonicInstr::RstOAo => UsonicOp::Reset,
        }
    }

    /// The instruction which does `op` on the category `cat`.
    pub fn compose(op: UsonicOp, cat: IoCat) -> (instr: UsonicInstr)
        ensures
            instr == Self::spec_compose(op, cat),
            instr.spec_op() == op,
            instr.spec_category() == cat,
    {
        match (op, cat) {
            (UsonicOp::CheckNext, IoCat::IN_RO) => UsonicInstr::CkNxIRo,
            (UsonicOp::CheckNext, IoCat::IN_AO) => UsonicInstr::CkNxIAo,
            (UsonicOp::CheckNext, IoCat::OUT_RO) => UsonicInstr::CkNxORo,
            (UsonicOp::CheckNext, IoCat::OUT_AO) => UsonicInstr::CkNxOAo,
            (UsonicOp::Load, IoCat::IN_RO) => UsonicInstr::LdIRo,
            (UsonicOp::Load, IoCat::IN_AO) => UsonicInstr::LdIAo,
            (UsonicOp::Load, IoCat::OUT_RO) => UsonicInstr::LdORo,
            (UsonicOp::Load, IoCat::OUT_AO) => UsonicInstr::LdOAo,
            (UsonicOp::Reset, IoCat::IN_RO) => UsonicInstr::RstIRo,
            (UsonicOp::Reset, IoCat::IN_AO) => UsonicInstr::RstIAo,
            (UsonicOp::Reset, IoCat::OUT_RO) => UsonicInstr::RstORo,
            (UsonicOp::Reset, IoCat::OUT_AO) => UsonicInstr::RstOAo,
        }
    }
}

/// The first of the operation codes of the instructions. The codes follow one another in the
/// order of the instructions.
pub const USONIC_OPCODE_START: u8 = 128;

/// The last of the operation codes of the instructions.
pub const USONIC_OPCODE_END: u8 = 139;

impl UsonicInstr {
    /// Place of the instruction in the set.
    pub open spec fn spec_ordinal(self) -> int {
        match self {
            UsonicInstr::CkNxIRo => 0,
            UsonicInstr::CkNxIAo => 1,
            UsonicInstr::CkNxORo => 2,
            UsonicInstr::CkNxOAo => 3,
            UsonicInstr::LdIRo => 4,
            UsonicInstr::LdIAo => 5,
            UsonicInstr::LdORo => 6,
            UsonicInstr::LdOAo => 7,
            UsonicInstr::RstIRo => 8,
            UsonicInstr::RstIAo => 9,
            UsonicInstr::RstORo => 10,
            UsonicInstr::RstOAo => 11,
        }
    }

    /// The byte which stands for the instruction in the code of a program. The instruction
    /// takes no further byte: the category is part of the operation code.
    pub open spec fn spec_opcode(self) -> u8 {
        (USONIC_OPCODE_START + self.spec_ordinal()) as u8
    }

    /// The byte which stands for the instruction in the code of a program.
    pub fn opcode_byte(&self) -> (opcode: u8)
        ensures
            opcode == self.spec_opcode(),
            USONIC_OPCODE_START <= opcode <= USONIC_OPCODE_END,
    {
        let ordinal: u8 = match self {
            UsonicInstr::CkNxIRo => 0,
            UsonicInstr::CkNxIAo => 1,
            UsonicInstr::CkNxORo => 2,
            UsonicInstr::CkNxOAo => 3,
            UsonicInstr::LdIRo => 4,
            UsonicInstr::LdIAo => 5,
            UsonicInstr::LdORo => 6,
            UsonicInstr::LdOAo => 7,
            UsonicInstr::RstIRo => 8,
            UsonicInstr::RstIAo => 9,
            UsonicInstr::RstORo => 10,
            UsonicInstr::RstOAo => 11,
        };
        USONIC_OPCODE_START + ordinal
    }

    /// Number of bytes which the instruction takes in the code of a program: one, the
    /// operation code.
    pub fn code_byte_len(&self) -> (len: u16)
        ensures
            len == 1,
    {
        1
    }

    /// The instruction which a byte stands for in the code of a program, where it stands for
    /// one of this set.
    pub fn from_opcode(opcode: u8) -> (instr: Option<UsonicInstr>)
        ensures
            instr is Some <==> USONIC_OPCODE_START <= opcode <= USONIC_OPCODE_END,
            instr matches Some(i) ==> i.spec_opcode() == opcode,
            forall|i: UsonicInstr| i.spec_opcode() == opcode ==> instr == Some(i),
    {
        if opcode < USONIC_OPCODE_START {
            return None;
        }
        match opcode - USONIC_OPCODE_START {
            0 => Some(UsonicInstr::CkNxIRo),
            1 => Some(UsonicInstr::CkNxIAo),
            2 => Some(UsonicInstr::CkNxORo),
            3 => Some(UsonicInstr::CkNxOAo),
            4 => Some(UsonicInstr::LdIRo),
            5 => Some(UsonicInstr::LdIAo),
            6 => Some(UsonicInstr::LdORo),
            7 => Some(UsonicInstr::LdOAo),
            8 => Some(UsonicInstr::RstIRo),
            9 => Some(UsonicInstr::RstIAo),
            10 => Some(UsonicInstr::RstORo),
            11 => Some(UsonicInstr::RstOAo),
            _ => None,
        }
    }
}

/// How the access to destructible state is written in the assembly.
pub const ACCESS_DESTRUCTIBLE: &'static str = ":destructible";

/// How the access to immutable state is written in the assembly.
pub const ACCESS_IMMUTABLE: &'static str = ":immutable";

impl UsonicInstr {
    /// The operation which a mnemonic stands for, and whether it is about the input of the
    /// operation (or else about its output).
    pub open spec fn spec_mnemonic_op(mnemonic: Seq<char>) -> Option<(UsonicOp, bool)> {
        if mnemonic == "cknxi"@ {
            Some((UsonicOp::CheckNext, true))
        } else if mnemonic == "cknxo"@ {
            Some((UsonicOp::CheckNext, false))
        } else if mnemonic == "ldi"@ {
            Some((UsonicOp::Load, true))
        } else if mnemonic == "ldo"@ {
            Some((UsonicOp::Load, false))
        } else if mnemonic == "rsti"@ {
            Some((UsonicOp::Reset, true))
        } else if mnemonic == "rsto"@ {
            Some((UsonicOp::Reset, false))
        } else {
            None
        }
    }

    /// The instruction which a mnemonic and an access stand for in the assembly.
    ///
    /// The mnemonics are `cknxi`, `cknxo`, `ldi`, `ldo`, `rsti` and `rsto`, each followed by
    /// `:destructible` or `:immutable`. Everything else is no instruction of this set.
    pub open spec fn spec_from_mnemonic(mnemonic: Seq<char>, access: Seq<char>) -> Option<
        UsonicInstr,
    > {
        match Self::spec_mnemonic_op(mnemonic) {
            Some((op, input)) => if access == ACCESS_DESTRUCTIBLE@ {
                Some(
                    Self::spec_compose(
                        op,
                        if input {
                            IoCat::IN_RO
                        } else {
                            IoCat::OUT_RO
                        },
                    ),
                )
            } else if access == ACCESS_IMMUTABLE@ {
                Some(
                    Self::spec_compose(
                        op,
                        if input {
                            IoCat::IN_AO
                        } else {
                            IoCat::OUT_AO
                        },
                    ),
                )
            } else {
                None
            },
            None => None,
        }
    }

    /// The text of the instruction in the assembly: the mnemonic, filled up with blanks to
    /// eight characters, and the access.
    pub open spec fn spec_text(self) -> Seq<char> {
        match self {
            UsonicInstr::CkNxIRo => "cknxi   :destructible"@,
            UsonicInstr::CkNxIAo => "cknxi   :immutable"@,
            UsonicInstr::CkNxORo => "cknxo   :destructible"@,
            UsonicInstr::CkNxOAo => "cknxo   :immutable"@,
            UsonicInstr::LdIRo => "ldi     :destructible"@,
            UsonicInstr::LdIAo => "ldi     :immutable"@,
            UsonicInstr::LdORo => "ldo     :destructible"@,
            UsonicInstr::LdOAo => "ldo     :immutable"@,
            UsonicInstr::RstIRo => "rsti    :destructible"@,
            UsonicInstr::RstIAo => "rsti    :immutable"@,
            UsonicInstr::RstORo => "rsto    :destructible"@,
            UsonicInstr::RstOAo => "rsto    :immutable"@,
        }
    }

    /// The instruction which a mnemonic and an access stand for in the assembly, where they
    /// stand for one of this set.
    pub fn from_mnemonic(mnemonic: &str, access: &str) -> (instr: Option<UsonicInstr>)
        ensures
            instr == Self::spec_from_mnemonic(mnemonic@, access@),
    {
        let (op, input) = if str_eq(mnemonic, "cknxi") {
            (UsonicOp::CheckNext, true)
        } else if str_eq(mnemonic, "cknxo") {
            (UsonicOp::CheckNext, false)
        } else if str_eq(mnemonic, "ldi") {
            (UsonicOp::Load, true)
        } else if str_eq(mnemonic, "ldo") {
            (UsonicOp::Load, false)
        } else if str_eq(mnemonic, "rsti") {
            (UsonicOp::Reset, true)
        } else if str_eq(mnemonic, "rsto") {
            (UsonicOp::Reset, false)
        } else {
            return None;
        };
        if str_eq(access, ACCESS_DESTRUCTIBLE) {
            Some(Self::compose(op, if input { IoCat::IN_RO } else { IoCat::OUT_RO }))
        } else if str_eq(access, ACCESS_IMMUTABLE) {
            Some(Self::compose(op, if input { IoCat::IN_AO } else { IoCat::OUT_AO }))
        } else {
            None
        }
    }

    /// The text of the instruction in the assembly.
    pub fn text(&self) -> (text: &'static str)
        ensures
            text@ == self.spec_text(),
    {
        match self {
            UsonicInstr::CkNxIRo => "cknxi   :destructible",
            UsonicInstr::CkNxIAo => "cknxi   :immutable",
            UsonicInstr::CkNxORo => "cknxo   :destructible",
            UsonicInstr::CkNxOAo => "cknxo   :immutable",
            UsonicInstr::LdIRo => "ldi     :destructible",
            UsonicInstr::LdIAo => "ldi     :immutable",
            UsonicInstr::LdORo => "ldo     :destructible",
            UsonicInstr::LdOAo => "ldo     :immutable",
            UsonicInstr::RstIRo => "rsti    :destructible",
            UsonicInstr::RstIAo => "rsti    :immutable",
            UsonicInstr::RstORo => "rsto    :destructible",
            UsonicInstr::RstOAo => "rsto    :immutable",
        }
    }
}

/// Control-flow instruction of the base machine, kept as AluVM has it.
#[verifier::external_body]
#[derive(PartialEq, Eq, Hash, Debug)]
pub struct CtrlInstr(pub AluCtrlInstr<AluLibId>);

impl Clone for CtrlInstr {
    /// `Clone::clone` of the control-flow instruction of AluVM: the same instruction again.
    #[verifier::external_body]
    fn clone(&self) -> (copy: Self)
        ensures
            copy == *self,
    {
        CtrlInstr(self.0)
    }
}

impl Copy for CtrlInstr {
}

/// `FieldInstr` of zk-AluVM, the instruction of the field arithmetic, is kept as that crate
/// has it.
#[verifier::external_type_specification]
#[verifier::external_body]
pub struct ExFieldInstr(FieldInstr);

/// `ReservedInstr` of AluVM, the instruction which is kept for later use, is kept as that crate
/// has it.
#[verifier::external_type_specification]
#[verifier::external_body]
pub struct ExReservedInstr(ReservedInstr);

/// The whole instruction set of the machine: the families of the base machine, and the
/// instructions which walk through the state of an operation.
#[derive(Copy, Clone, PartialEq, Eq, Hash, Debug)]
#[non_exhaustive]
pub enum Instr {
    /// Control-flow instructions.
    Ctrl(CtrlInstr),
    /// Arithmetic in the finite field.
    Gfa(FieldInstr),
    /// Access to the state of the operation.
    Usonic(UsonicInstr),
    /// Reserved for later use by the base machine.
    Reserved(ReservedInstr),
}

} // verus!
