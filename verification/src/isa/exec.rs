//! What the instructions do to the core.

use amplify::ByteArray;
use vstd::prelude::*;
use zkaluvm::alu::isa::{Instruction, ReservedInstr};
use zkaluvm::alu::{Core, ExecStep as AluStep, LibId as AluLibId, NoExt, Site, Supercore};
use zkaluvm::gfa::FieldInstr;

use super::instr::{CtrlInstr, Instr, UsonicInstr, UsonicOp};
use super::machine::{
    core_state, limbs_value, BaseCore, CoreState, ExecStep, RegE, Status, UsonicCore, UsonicState,
    REG_COUNT,
};
use crate::codex::{IoCat, VmContext};
use crate::library::{LibId, LibSite};

verus! {

/// Numbers of the registers which a field instruction reads, as zk-AluVM lists them.
pub uninterp spec fn field_src_regs(instr: FieldInstr) -> Seq<u8>;

/// Numbers of the registers which a field instruction may change, as zk-AluVM lists them.
pub uninterp spec fn field_dst_regs(instr: FieldInstr) -> Seq<u8>;

/// Number of bytes which a field instruction takes as operands, as zk-AluVM counts them.
pub uninterp spec fn field_op_data_bytes(instr: FieldInstr) -> u16;

/// Number of bytes which a field instruction reads besides registers and operands, as zk-AluVM
/// counts them.
pub uninterp spec fn field_ext_data_bytes(instr: FieldInstr) -> u16;

/// Number of bytes which a control-flow instruction takes as operands, as AluVM counts them.
pub uninterp spec fn ctrl_op_data_bytes(instr: CtrlInstr) -> u16;

/// Number of bytes which a control-flow instruction reads besides registers and operands, as
/// AluVM counts them.
pub uninterp spec fn ctrl_ext_data_bytes(instr: CtrlInstr) -> u16;

/// What a control-flow instruction at a place in the code makes of the registers of the base
/// core, and the step which the machine is to take after it, as AluVM has them.
pub uninterp spec fn ctrl_outcome(instr: CtrlInstr, site: LibSite, state: CoreState) -> (
    CoreState,
    ExecStep,
);

/// The number which a field instruction puts into a register from the data of the program,
/// where the instruction is of that kind.
pub uninterp spec fn field_put_data(instr: FieldInstr) -> Option<nat>;

/// The number of the register whose value a field instruction negates, where the instruction
/// is of that kind.
pub uninterp spec fn field_neg_src(instr: FieldInstr) -> Option<u8>;

/// What a field instruction at a place in the code makes of the registers of the base core,
/// and the step which the machine is to take after it, as zk-AluVM has them.
pub uninterp spec fn field_outcome(instr: FieldInstr, site: LibSite, state: CoreState) -> (
    CoreState,
    ExecStep,
);

/// Whether the base machine can carry out a field instruction on registers in the given
/// state. It cannot compute in a field which is too small for the constants of 128 bits, it
/// cannot put a number into a register which is not below the order of the field, and it
/// cannot negate zero.
pub open spec fn field_exec_safe(instr: FieldInstr, state: CoreState) -> bool {
    &&& state.fq > u128::MAX
    &&& field_put_data(instr) matches Some(data) ==> data < state.fq
    &&& field_neg_src(instr) matches Some(reg) ==> state.e[reg as int] != Some(0nat)
}

/// Whether the numbers are those of registers, each one once and in rising order.
pub open spec fn register_set(regs: Seq<u8>) -> bool {
    &&& forall|i: int| 0 <= i < regs.len() ==> regs[i] < REG_COUNT
    &&& forall|i: int, j: int| 0 <= i < j < regs.len() ==> regs[i] < regs[j]
}

/// `Instruction::src_regs` of the field instructions of zk-AluVM. The set comes out in the order
/// of the registers, each register as its number.
#[verifier::external_body]
fn gfa_src_regs(instr: &FieldInstr) -> (regs: Vec<u8>)
    ensures
        regs@ == field_src_regs(*instr),
        register_set(regs@),
{
    Instruction::<AluLibId>::src_regs(instr).into_iter().map(|reg| reg as u8).collect()
}

/// `Instruction::dst_regs` of the field instructions of zk-AluVM. The set comes out in the order
/// of the registers, each register as its number.
#[verifier::external_body]
fn gfa_dst_regs(instr: &FieldInstr) -> (regs: Vec<u8>)
    ensures
        regs@ == field_dst_regs(*instr),
        register_set(regs@),
{
    Instruction::<AluLibId>::dst_regs(instr).into_iter().map(|reg| reg as u8).collect()
}

/// `Instruction::op_data_bytes` of the field instructions of zk-AluVM.
#[verifier::external_body]
fn gfa_op_data_bytes(instr: &FieldInstr) -> (bytes: u16)
    ensures
        bytes == field_op_data_bytes(*instr),
{
    Instruction::<AluLibId>::op_data_bytes(instr)
}

/// `Instruction::ext_data_bytes` of the field instructions of zk-AluVM.
#[verifier::external_body]
fn gfa_ext_data_bytes(instr: &FieldInstr) -> (bytes: u16)
    ensures
        bytes == field_ext_data_bytes(*instr),
{
    Instruction::<AluLibId>::ext_data_bytes(instr)
}

/// `Instruction::op_data_bytes` of the control-flow instructions of AluVM.
#[verifier::external_body]
fn base_op_data_bytes(instr: &CtrlInstr) -> (bytes: u16)
    ensures
        bytes == ctrl_op_data_bytes(*instr),
{
    instr.0.op_data_bytes()
}

/// `Instruction::ext_data_bytes` of the control-flow instructions of AluVM.
#[verifier::external_body]
fn base_ext_data_bytes(instr: &CtrlInstr) -> (bytes: u16)
    ensures
        bytes == ctrl_ext_data_bytes(*instr),
{
    instr.0.ext_data_bytes()
}

/// `Instruction::exec` of the control-flow instructions of AluVM, on the base core without
/// its field registers, which are put back as they were. The field registers and the order of
/// the field stay; the counter of failures has to have room for one more failure.
#[verifier::external_body]
fn base_exec_ctrl(instr: &CtrlInstr, site: LibSite, core: &mut BaseCore) -> (step: ExecStep)
    requires
        core_state(*old(core)).cf < u64::MAX,
    ensures
        (core_state(*final(core)), step) == ctrl_outcome(*instr, site, core_state(*old(core))),
        core_state(*final(core)).fq == core_state(*old(core)).fq,
        core_state(*final(core)).e == core_state(*old(core)).e,
{
    let mut sub: Core<AluLibId, NoExt> = core.0.subcore();
    let at = Site::new(AluLibId::from(site.lib_id.0), site.offset);
    let step = instr.0.exec(at, &mut sub, &());
    core.0.merge_subcore(sub);
    match step {
        AluStep::Stop => ExecStep::Stop,
        AluStep::Fail => ExecStep::Fail,
        AluStep::Next => ExecStep::Next,
        AluStep::Jump(pos) => ExecStep::Jump(pos),
        AluStep::Call(to) => ExecStep::Call(LibSite { lib_id: LibId(to.prog_id.to_byte_array()), offset: to.offset }),
        AluStep::Ret(to) => ExecStep::Ret(LibSite { lib_id: LibId(to.prog_id.to_byte_array()), offset: to.offset }),
    }
}

/// The data of a `FieldInstr::PutD` of zk-AluVM, as its four limbs; nothing for the other
/// instructions.
#[verifier::external_body]
fn gfa_put_data(instr: &FieldInstr) -> (data: Option<[u64; 4]>)
    ensures
        match data {
            Some(limbs) => field_put_data(*instr) == Some(limbs_value(limbs@)),
            None => field_put_data(*instr) is None,
        },
{
    match instr {
        FieldInstr::PutD { data, .. } => Some(data.to_u256().into_inner()),
        _ => None,
    }
}

/// The source register of a `FieldInstr::Neg` of zk-AluVM, as its number; nothing for the other
/// instructions.
#[verifier::external_body]
fn gfa_neg_src(instr: &FieldInstr) -> (src: Option<u8>)
    ensures
        src == field_neg_src(*instr),
        src matches Some(reg) ==> reg < REG_COUNT,
{
    match instr {
        FieldInstr::Neg { src, .. } => Some(*src as u8),
        _ => None,
    }
}

/// `Instruction::exec` of the field instructions of zk-AluVM. The order of the field stays.
/// The machine panics where it is to put a number into a register which is not below the
/// order of the field: on data of the program which is too large, on the negation of zero,
/// which gives the order itself, and on its constants in a field of less than 128 bits.
#[verifier::external_body]
fn base_exec_field(instr: &FieldInstr, site: LibSite, core: &mut BaseCore) -> (step: ExecStep)
    requires
        field_exec_safe(*instr, core_state(*old(core))),
    ensures
        (core_state(*final(core)), step) == field_outcome(*instr, site, core_state(*old(core))),
        core_state(*final(core)).fq == core_state(*old(core)).fq,
{
    let at = Site::new(AluLibId::from(site.lib_id.0), site.offset);
    let step = Instruction::<AluLibId>::exec(instr, at, &mut core.0, &());
    match step {
        AluStep::Stop => ExecStep::Stop,
        AluStep::Fail => ExecStep::Fail,
        AluStep::Next => ExecStep::Next,
        AluStep::Jump(pos) => ExecStep::Jump(pos),
        AluStep::Call(to) => ExecStep::Call(LibSite { lib_id: LibId(to.prog_id.to_byte_array()), offset: to.offset }),
        AluStep::Ret(to) => ExecStep::Ret(LibSite { lib_id: LibId(to.prog_id.to_byte_array()), offset: to.offset }),
    }
}

/// Tells whether the number of four limbs is below that of four others.
fn limbs_below(a: &[u64; 4], b: &[u64; 4]) -> (below: bool)
    ensures
        below == (limbs_value(a@) < limbs_value(b@)),
{
    if a[3] != b[3] {
        a[3] < b[3]
    } else if a[2] != b[2] {
        a[2] < b[2]
    } else if a[1] != b[1] {
        a[1] < b[1]
    } else {
        a[0] < b[0]
    }
}

/// `Instruction::exec` of the reserved instructions of AluVM: the instruction changes no
/// register, and what the machine is told to do after it is to fail.
#[verifier::external_body]
fn base_exec_reserved(instr: &ReservedInstr, site: LibSite, core: &mut BaseCore) -> (step:
    ExecStep)
    ensures
        step == ExecStep::Fail,
        core_state(*final(core)) == core_state(*old(core)),
{
    let mut sub: Core<AluLibId, NoExt> = core.0.subcore();
    let at = Site::new(AluLibId::from(site.lib_id.0), site.offset);
    let step = Instruction::<AluLibId>::exec(instr, at, &mut sub, &());
    core.0.merge_subcore(sub);
    match step {
        AluStep::Stop => ExecStep::Stop,
        AluStep::Fail => ExecStep::Fail,
        AluStep::Next => ExecStep::Next,
        AluStep::Jump(pos) => ExecStep::Jump(pos),
        AluStep::Call(to) => ExecStep::Call(LibSite { lib_id: LibId(to.prog_id.to_byte_array()), offset: to.offset }),
        AluStep::Ret(to) => ExecStep::Ret(LibSite { lib_id: LibId(to.prog_id.to_byte_array()), offset: to.offset }),
    }
}

/// The registers with the given numbers.
fn registers(numbers: &Vec<u8>) -> (regs: Vec<RegE>)
    requires
        register_set(numbers@),
    ensures
        regs@.len() == numbers@.len(),
        forall|i: int| 0 <= i < regs@.len() ==> regs@[i].spec_index() == numbers@[i],
        forall|i: int, j: int|
            0 <= i < j < regs@.len() ==> regs@[i].spec_index() < regs@[j].spec_index(),
{
    let mut regs: Vec<RegE> = Vec::new();
    let mut i: usize = 0;
    while i < numbers.len()
        invariant
            i <= numbers@.len(),
            regs@.len() == i,
            register_set(numbers@),
            forall|k: int| 0 <= k < i ==> regs@[k].spec_index() == numbers@[k],
        decreases numbers@.len() - i,
    {
        regs.push(RegE::from_index(numbers[i]));
        i += 1;
    }
    assert forall|i: int, j: int| 0 <= i < j < regs@.len() implies regs@[i].spec_index()
        < regs@[j].spec_index() by {
        assert(numbers@[i] < numbers@[j]);
    }
    regs
}

impl UsonicInstr {
    /// The state of the core after the instruction.
    pub open spec fn spec_exec(self, state: UsonicState, context: VmContext) -> UsonicState {
        match self.spec_op() {
            UsonicOp::CheckNext => state.check_next(self.spec_category(), context),
            UsonicOp::Load => state.load(self.spec_category(), context),
            UsonicOp::Reset => state.reset(self.spec_category()),
        }
    }

    /// Registers whose value the instruction takes into account: none.
    pub fn src_regs(&self) -> (regs: Vec<RegE>)
        ensures
            regs@.len() == 0,
    {
        Vec::new()
    }

    /// Registers whose value the instruction is held to change: none.
    pub fn dst_regs(&self) -> (regs: Vec<RegE>)
        ensures
            regs@.len() == 0,
    {
        Vec::new()
    }

    /// Number of bytes which come as operands of the instruction: none, the category is part of
    /// the operation code.
    pub fn op_data_bytes(&self) -> (bytes: u16)
        ensures
            bytes == 0,
    {
        match *self {
            UsonicInstr::CkNxIRo
            | UsonicInstr::CkNxIAo
            | UsonicInstr::CkNxORo
            | UsonicInstr::CkNxOAo => 0,
            UsonicInstr::LdIRo | UsonicInstr::LdIAo | UsonicInstr::LdORo | UsonicInstr::LdOAo => 0,
            UsonicInstr::RstIRo
            | UsonicInstr::RstIAo
            | UsonicInstr::RstORo
            | UsonicInstr::RstOAo => 0,
        }
    }

    /// Number of bytes which the instruction reads from the program besides its operands: none.
    pub fn ext_data_bytes(&self) -> (bytes: u16)
        ensures
            bytes == 0,
    {
        match *self {
            UsonicInstr::CkNxIRo
            | UsonicInstr::CkNxIAo
            | UsonicInstr::CkNxORo
            | UsonicInstr::CkNxOAo => 0,
            UsonicInstr::LdIRo | UsonicInstr::LdIAo | UsonicInstr::LdORo | UsonicInstr::LdOAo => 0,
            UsonicInstr::RstIRo
            | UsonicInstr::RstIAo
            | UsonicInstr::RstORo
            | UsonicInstr::RstOAo => 0,
        }
    }

    /// Executes the instruction on the core, against the operation which `context` shows.
    ///
    /// A check sets `CO` alone; a load fills `EA` to `ED`, sets `CO` and moves the iterator of
    /// its category; a reset changes the iterator of its category alone. None touches `CK`, and
    /// the machine goes on with the next instruction in every case.
    pub fn exec(&self, site: LibSite, core: &mut UsonicCore, context: &VmContext) -> (step:
        ExecStep)
        requires
            old(core).wf(),
            context.wf(),
        ensures
            final(core).wf(),
            final(core)@ == self.spec_exec(old(core)@, *context),
            step == ExecStep::Next,
    {
        match *self {
            UsonicInstr::CkNxIRo => {
                let res = core.has_next(IoCat::IN_RO, context);
                core.set_co(if res { Status::Okay } else { Status::Fail });
                ExecStep::Next
            },
            UsonicInstr::CkNxIAo => {
                let res = core.has_next(IoCat::IN_AO, context);
                core.set_co(if res { Status::Okay } else { Status::Fail });
                ExecStep::Next
            },
            UsonicInstr::CkNxORo => {
                let res = core.has_next(IoCat::OUT_RO, context);
                core.set_co(if res { Status::Okay } else { Status::Fail });
                ExecStep::Next
            },
            UsonicInstr::CkNxOAo => {
                let res = core.has_next(IoCat::OUT_AO, context);
                core.set_co(if res { Status::Okay } else { Status::Fail });
                ExecStep::Next
            },
            UsonicInstr::LdIRo => core.load(IoCat::IN_RO, context),
            UsonicInstr::LdIAo => core.load(IoCat::IN_AO, context),
            UsonicInstr::LdORo => core.load(IoCat::OUT_RO, context),
            UsonicInstr::LdOAo => core.load(IoCat::OUT_AO, context),
            UsonicInstr::RstIRo => {
                core.reset(IoCat::IN_RO);
                ExecStep::Next
            },
            UsonicInstr::RstIAo => {
                core.reset(IoCat::IN_AO);
                ExecStep::Next
            },
            UsonicInstr::RstORo => {
                core.reset(IoCat::OUT_RO);
                ExecStep::Next
            },
            UsonicInstr::RstOAo => {
                core.reset(IoCat::OUT_AO);
                ExecStep::Next
            },
        }
    }
}

impl Instr {
    /// Numbers of the registers whose value the instruction takes into account.
    pub open spec fn spec_src_regs(self) -> Seq<u8> {
        match self {
            Instr::Gfa(instr) => field_src_regs(instr),
            _ => Seq::empty(),
        }
    }

    /// Numbers of the registers whose value the instruction may change.
    pub open spec fn spec_dst_regs(self) -> Seq<u8> {
        match self {
            Instr::Gfa(instr) => field_dst_regs(instr),
            _ => Seq::empty(),
        }
    }

    /// Number of bytes which come as operands of the instruction.
    pub open spec fn spec_op_data_bytes(self) -> u16 {
        match self {
            Instr::Ctrl(instr) => ctrl_op_data_bytes(instr),
            Instr::Gfa(instr) => field_op_data_bytes(instr),
            Instr::Usonic(_) => 0,
            Instr::Reserved(_) => 0,
        }
    }

    /// Number of bytes which the instruction reads besides registers and operands.
    pub open spec fn spec_ext_data_bytes(self) -> u16 {
        match self {
            Instr::Ctrl(instr) => ctrl_ext_data_bytes(instr),
            Instr::Gfa(instr) => field_ext_data_bytes(instr),
            Instr::Usonic(_) => 0,
            Instr::Reserved(_) => 0,
        }
    }

    /// Registers whose value the instruction takes into account: each one once, in the order
    /// of the registers.
    pub fn src_regs(&self) -> (regs: Vec<RegE>)
        ensures
            regs@.len() == self.spec_src_regs().len(),
            forall|i: int|
                0 <= i < regs@.len() ==> regs@[i].spec_index() == self.spec_src_regs()[i],
            forall|i: int, j: int|
                0 <= i < j < regs@.len() ==> regs@[i].spec_index() < regs@[j].spec_index(),
            !(self is Gfa) ==> regs@.len() == 0,
    {
        match self {
            Instr::Ctrl(_) => Vec::new(),
            Instr::Gfa(instr) => registers(&gfa_src_regs(instr)),
            Instr::Usonic(instr) => instr.src_regs(),
            Instr::Reserved(_) => Vec::new(),
        }
    }

    /// Registers whose value the instruction may change: each one once, in the order of the
    /// registers.
    pub fn dst_regs(&self) -> (regs: Vec<RegE>)
        ensures
            regs@.len() == self.spec_dst_regs().len(),
            forall|i: int|
                0 <= i < regs@.len() ==> regs@[i].spec_index() == self.spec_dst_regs()[i],
            forall|i: int, j: int|
                0 <= i < j < regs@.len() ==> regs@[i].spec_index() < regs@[j].spec_index(),
            !(self is Gfa) ==> regs@.len() == 0,
    {
        match self {
            Instr::Ctrl(_) => Vec::new(),
            Instr::Gfa(instr) => registers(&gfa_dst_regs(instr)),
            Instr::Usonic(instr) => instr.dst_regs(),
            Instr::Reserved(_) => Vec::new(),
        }
    }

    /// Number of bytes which come as operands of the instruction.
    pub fn op_data_bytes(&self) -> (bytes: u16)
        ensures
            bytes == self.spec_op_data_bytes(),
    {
        match self {
            Instr::Ctrl(instr) => base_op_data_bytes(instr),
            Instr::Gfa(instr) => gfa_op_data_bytes(instr),
            Instr::Usonic(instr) => instr.op_data_bytes(),
            Instr::Reserved(_) => 0,
        }
    }

    /// Number of bytes which the instruction reads besides registers and operands.
    pub fn ext_data_bytes(&self) -> (bytes: u16)
        ensures
            bytes == self.spec_ext_data_bytes(),
    {
        match self {
            Instr::Ctrl(instr) => base_ext_data_bytes(instr),
            Instr::Gfa(instr) => gfa_ext_data_bytes(instr),
            Instr::Usonic(instr) => instr.ext_data_bytes(),
            Instr::Reserved(_) => 0,
        }
    }

    /// Whether the base machine can carry out the instruction on a core in the given state: a
    /// control-flow instruction needs room in the counter of failures, and a field instruction
    /// may neither put a number into a register which is not below the order of the field nor
    /// negate zero.
    pub open spec fn spec_ready(self, state: UsonicState) -> bool {
        match self {
            Instr::Ctrl(_) => state.base.cf < u64::MAX,
            Instr::Gfa(instr) => field_exec_safe(instr, state.base),
            _ => true,
        }
    }

    /// The registers of the base core after the instruction, and the step which the machine is
    /// to take. The instructions of the base machine do what that machine has them do; those
    /// of the USONIC family go on with the next instruction, and a reserved instruction fails.
    pub open spec fn spec_exec(self, site: LibSite, state: UsonicState, context: VmContext) -> (
        UsonicState,
        ExecStep,
    ) {
        match self {
            Instr::Ctrl(instr) => {
                let (base, step) = ctrl_outcome(instr, site, state.base);
                (UsonicState { base, ..state }, step)
            },
            Instr::Gfa(instr) => {
                let (base, step) = field_outcome(instr, site, state.base);
                (UsonicState { base, ..state }, step)
            },
            Instr::Usonic(instr) => (instr.spec_exec(state, context), ExecStep::Next),
            Instr::Reserved(_) => (state, ExecStep::Fail),
        }
    }

    /// Tells whether the base machine can carry out the instruction on the core.
    pub fn is_ready(&self, core: &UsonicCore) -> (ready: bool)
        requires
            core.wf(),
        ensures
            ready == self.spec_ready(core@),
    {
        match self {
            Instr::Ctrl(_) => core.cf() < u64::MAX,
            Instr::Gfa(instr) => {
                let fits = match gfa_put_data(instr) {
                    Some(data) => limbs_below(&data, &core.fq()),
                    None => true,
                };
                let negates_zero = match gfa_neg_src(instr) {
                    Some(reg) => match core.get(RegE::from_index(reg)) {
                        Some(limbs) => {
                            limbs[0] == 0 && limbs[1] == 0 && limbs[2] == 0 && limbs[3] == 0
                        },
                        None => false,
                    },
                    None => false,
                };
                fits && !negates_zero
            },
            _ => true,
        }
    }

    /// Executes the instruction on the core, against the operation which `context` shows.
    ///
    /// Only the instructions of the USONIC family read the context and may move the iterator
    /// registers. The instructions of the base machine run on the base core, with the
    /// iterator registers set aside and put back unchanged.
    pub fn exec(&self, site: LibSite, core: &mut UsonicCore, context: &VmContext) -> (step:
        ExecStep)
        requires
            old(core).wf(),
            context.wf(),
            self.spec_ready(old(core)@),
        ensures
            final(core).wf(),
            (final(core)@, step) == self.spec_exec(site, old(core)@, *context),
            !(self is Usonic) ==> final(core)@.ui == old(core)@.ui,
    {
        match self {
            Instr::Ctrl(instr) => base_exec_ctrl(instr, site, &mut core.base),
            Instr::Gfa(instr) => base_exec_field(instr, site, &mut core.base),
            Instr::Usonic(instr) => instr.exec(site, core, context),
            Instr::Reserved(instr) => base_exec_reserved(instr, site, &mut core.base),
        }
    }

    /// Executes the instruction where that can be done: on a core whose field holds every
    /// field element of 128 bits, against a context whose categories an iterator register can
    /// count, and where the base machine can carry the instruction out. Else nothing changes
    /// and there is no answer.
    pub fn exec_checked(&self, site: LibSite, core: &mut UsonicCore, context: &VmContext) -> (step:
        Option<ExecStep>)
        ensures
            step is Some <==> old(core).wf() && context.wf() && self.spec_ready(old(core)@),
            step is None ==> *final(core) == *old(core),
            step matches Some(s) ==> {
                &&& final(core).wf()
                &&& (final(core)@, s) == self.spec_exec(site, old(core)@, *context)
                &&& !(self is Usonic) ==> final(core)@.ui == old(core)@.ui
            },
    {
        if core.is_wf() && context.is_wf() && self.is_ready(core) {
            Some(self.exec(site, core, context))
        } else {
            None
        }
    }
}

impl UsonicState {
    /// The state after `rounds` rounds on one category, each round a check for a next item and
    /// then a load.
    pub open spec fn walk(self, cat: IoCat, context: VmContext, rounds: nat) -> UsonicState
        decreases rounds,
    {
        if rounds == 0 {
            self
        } else {
            let before = self.walk(cat, context, (rounds - 1) as nat);
            let check = UsonicInstr::spec_compose(UsonicOp::CheckNext, cat);
            let load = UsonicInstr::spec_compose(UsonicOp::Load, cat);
            load.spec_exec(check.spec_exec(before, context), context)
        }
    }
}

/// An iterator is exhausted by as many rounds as its category has items.
///
/// From an iterator at the start, the rounds of a check and a load on a category are counted
/// from zero. In the round `round`, the check and the load each leave `CO` clear where `round`
/// is below the number of items, and failed in every later round: `CO` is clear in exactly as
/// many rounds as there are items. Before the round the iterator stands at the number of the
/// round, or at the end of the category.
pub proof fn lemma_iterator_exhaustion(
    state: UsonicState,
    cat: IoCat,
    context: VmContext,
    round: nat,
)
    requires
        state.ui.len() == 4,
        state.ui[cat.spec_index()] == 0,
        context.wf(),
    ensures
        ({
            let items = context.values(cat).len();
            let check = UsonicInstr::spec_compose(UsonicOp::CheckNext, cat);
            let load = UsonicInstr::spec_compose(UsonicOp::Load, cat);
            let before = state.walk(cat, context, round);
            let checked = check.spec_exec(before, context);
            let loaded = load.spec_exec(checked, context);
            &&& before.ui.len() == 4
            &&& before.ui[cat.spec_index()] == (if round < items {
                round
            } else {
                items
            })
            &&& checked.base.co == (if round < items {
                Status::Okay
            } else {
                Status::Fail
            })
            &&& loaded.base.co == checked.base.co
        }),
    decreases round,
{
    if round > 0 {
        lemma_iterator_exhaustion(state, cat, context, (round - 1) as nat);
    }
}

/// A reset touches one iterator and nothing else.
///
/// After a reset the iterator of its category stands at zero; the three other iterators and all
/// registers of the base core, `CO` and `CK` among them, are what they were.
pub proof fn lemma_reset_isolation(instr: UsonicInstr, state: UsonicState, context: VmContext)
    requires
        instr.spec_op() == UsonicOp::Reset,
        state.ui.len() == 4,
    ensures
        ({
            let after = instr.spec_exec(state, context);
            &&& after.base == state.base
            &&& after.ui.len() == 4
            &&& after.ui[instr.spec_category().spec_index()] == 0
            &&& forall|i: int|
                0 <= i < 4 && i != instr.spec_category().spec_index() ==> after.ui[i]
                    == state.ui[i]
        }),
{
}

/// A check or a load on one category leaves the iterators of the other categories alone, and
/// neither touches `CK`.
pub proof fn lemma_category_isolation(instr: UsonicInstr, state: UsonicState, context: VmContext)
    requires
        state.ui.len() == 4,
    ensures
        ({
            let after = instr.spec_exec(state, context);
            &&& after.base.ck == state.base.ck
            &&& after.ui.len() == 4
            &&& forall|i: int|
                0 <= i < 4 && i != instr.spec_category().spec_index() ==> after.ui[i]
                    == state.ui[i]
        }),
{
}

} // verus!
