use core::fmt::{self, Display, Formatter};
use core::ops::RangeInclusive;
use std::collections::BTreeSet;

use amplify::num::u4;
use amplify::ByteArray;
use ultrasonic::codex::VmContext;
use ultrasonic::isa::instr::{
    UsonicInstr, ISA_ULTRASONIC, USONIC_OPCODE_END, USONIC_OPCODE_START,
};
use ultrasonic::isa::machine::{BaseCore, UsonicCore};
use ultrasonic::state::{fe128, StateValue};
use ultrasonic::{
    AuthToken, CallError, CallId, CellAddr, Codex, ContractId, FieldOrder, Input, Memory,
    Operation, Opid, SmallVec, StateCell, StateData, Text, Verifiers,
};
use zkaluvm::alu::isa::{
    Bytecode, BytecodeRead, BytecodeWrite, CodeEofError, CtrlInstr, GotoTarget, Instruction,
    ReservedInstr,
};
use zkaluvm::alu::regs::Status;
use zkaluvm::alu::{
    Core, CoreConfig, CoreExt, ExecStep, Lib, LibId, LibSite, Site, Supercore, Vm,
};
use zkaluvm::gfa::FieldInstr;
use zkaluvm::{fe256, GfaConfig, GfaCore, RegE};

/// The extension of the core, as a user of AluVM declares one.
#[derive(Clone, Debug)]
struct Ext {
    ui: [u16; 4],
    gfa: GfaCore,
}

impl CoreExt for Ext {
    type Reg = RegE;
    type Config = GfaConfig;

    fn with(config: GfaConfig) -> Self {
        Ext { ui: [0; 4], gfa: GfaCore::with(config) }
    }

    fn get(&self, reg: RegE) -> Option<fe256> {
        self.gfa.get(reg)
    }

    fn clr(&mut self, reg: RegE) {
        self.gfa.clr(reg)
    }

    fn put(&mut self, reg: RegE, val: Option<fe256>) {
        self.gfa.put(reg, val)
    }

    fn reset(&mut self) {
        self.gfa.reset();
        self.ui = [0; 4];
    }
}

impl Supercore<GfaCore> for Ext {
    fn subcore(&self) -> GfaCore {
        self.gfa
    }

    fn merge_subcore(&mut self, subcore: GfaCore) {
        self.gfa = subcore;
    }
}

/// The instructions, as a user of AluVM declares them.
#[derive(Copy, Clone, PartialEq, Eq, Debug)]
struct Op(ultrasonic::Instr);

fn ctrl(instr: CtrlInstr<LibId>) -> Op {
    Op(ultrasonic::Instr::Ctrl(ultrasonic::CtrlInstr(instr)))
}

fn gfa(instr: FieldInstr) -> Op {
    Op(ultrasonic::Instr::Gfa(instr))
}

fn usonic(instr: UsonicInstr) -> Op {
    Op(ultrasonic::Instr::Usonic(instr))
}

fn reserved(instr: ReservedInstr) -> Op {
    Op(ultrasonic::Instr::Reserved(instr))
}

impl Display for Op {
    fn fmt(&self, f: &mut Formatter<'_>) -> fmt::Result {
        match &self.0 {
            ultrasonic::Instr::Ctrl(instr) => Display::fmt(&instr.0, f),
            ultrasonic::Instr::Gfa(instr) => Display::fmt(instr, f),
            ultrasonic::Instr::Usonic(instr) => f.write_str(instr.text()),
            ultrasonic::Instr::Reserved(instr) => Display::fmt(instr, f),
            _ => unreachable!(),
        }
    }
}

fn alu_site(site: ultrasonic::LibSite) -> Site<LibId> {
    Site::new(LibId::from(site.lib_id.0), site.offset)
}

impl Instruction<LibId> for Op {
    const ISA_EXT: &'static [&'static str] = &[ISA_ULTRASONIC];
    type Core = Ext;
    type Context<'ctx> = VmContext<'ctx>;

    fn is_goto_target(&self) -> bool {
        match &self.0 {
            ultrasonic::Instr::Ctrl(instr) => instr.0.is_goto_target(),
            _ => false,
        }
    }

    fn local_goto_pos(&mut self) -> GotoTarget {
        match &mut self.0 {
            ultrasonic::Instr::Ctrl(instr) => instr.0.local_goto_pos(),
            _ => GotoTarget::None,
        }
    }

    fn remote_goto_pos(&mut self) -> Option<&mut Site<LibId>> {
        match &mut self.0 {
            ultrasonic::Instr::Ctrl(instr) => instr.0.remote_goto_pos(),
            _ => None,
        }
    }

    fn src_regs(&self) -> BTreeSet<RegE> {
        self.0.src_regs().into_iter().map(|reg| RegE::from(u4::with(reg.index()))).collect()
    }

    fn dst_regs(&self) -> BTreeSet<RegE> {
        self.0.dst_regs().into_iter().map(|reg| RegE::from(u4::with(reg.index()))).collect()
    }

    fn op_data_bytes(&self) -> u16 {
        self.0.op_data_bytes()
    }

    fn ext_data_bytes(&self) -> u16 {
        self.0.ext_data_bytes()
    }

    fn exec(
        &self,
        site: Site<LibId>,
        core: &mut Core<LibId, Ext>,
        context: &VmContext<'_>,
    ) -> ExecStep<Site<LibId>> {
        let base: Core<LibId, GfaCore> = core.subcore();
        let mut machine = UsonicCore::attach(BaseCore(base), core.cx.ui).expect("a large field");
        let at = ultrasonic::LibSite::new(
            ultrasonic::LibId(site.prog_id.to_byte_array()),
            site.offset,
        );
        let step = self.0.exec_checked(at, &mut machine, context).expect("a fit core");
        core.cx.ui = machine.ui;
        core.merge_subcore(machine.base.0);
        match step {
            ultrasonic::ExecStep::Stop => ExecStep::Stop,
            ultrasonic::ExecStep::Fail => ExecStep::Fail,
            ultrasonic::ExecStep::Next => ExecStep::Next,
            ultrasonic::ExecStep::Jump(pos) => ExecStep::Jump(pos),
            ultrasonic::ExecStep::Call(to) => ExecStep::Call(alu_site(to)),
            ultrasonic::ExecStep::Ret(to) => ExecStep::Ret(alu_site(to)),
        }
    }
}

impl Bytecode<LibId> for Op {
    fn op_range() -> RangeInclusive<u8> {
        0..=0xFF
    }

    fn opcode_byte(&self) -> u8 {
        match &self.0 {
            ultrasonic::Instr::Ctrl(instr) => instr.0.opcode_byte(),
            ultrasonic::Instr::Gfa(instr) => Bytecode::<LibId>::opcode_byte(instr),
            ultrasonic::Instr::Usonic(instr) => instr.opcode_byte(),
            ultrasonic::Instr::Reserved(instr) => Bytecode::<LibId>::opcode_byte(instr),
            _ => unreachable!(),
        }
    }

    fn code_byte_len(&self) -> u16 {
        match &self.0 {
            ultrasonic::Instr::Ctrl(instr) => instr.0.code_byte_len(),
            ultrasonic::Instr::Gfa(instr) => Bytecode::<LibId>::code_byte_len(instr),
            ultrasonic::Instr::Usonic(instr) => instr.code_byte_len(),
            ultrasonic::Instr::Reserved(instr) => Bytecode::<LibId>::code_byte_len(instr),
            _ => unreachable!(),
        }
    }

    fn external_ref(&self) -> Option<LibId> {
        match &self.0 {
            ultrasonic::Instr::Ctrl(instr) => instr.0.external_ref(),
            _ => None,
        }
    }

    fn encode_operands<W>(&self, writer: &mut W) -> Result<(), W::Error>
    where W: BytecodeWrite<LibId> {
        match &self.0 {
            ultrasonic::Instr::Ctrl(instr) => instr.0.encode_operands(writer),
            ultrasonic::Instr::Gfa(instr) => instr.encode_operands(writer),
            ultrasonic::Instr::Usonic(_) => Ok(()),
            ultrasonic::Instr::Reserved(instr) => instr.encode_operands(writer),
            _ => unreachable!(),
        }
    }

    fn decode_operands<R>(reader: &mut R, opcode: u8) -> Result<Self, CodeEofError>
    where
        Self: Sized,
        R: BytecodeRead<LibId>,
    {
        if <CtrlInstr<LibId> as Bytecode<LibId>>::op_range().contains(&opcode) {
            return CtrlInstr::<LibId>::decode_operands(reader, opcode).map(ctrl);
        }
        if <FieldInstr as Bytecode<LibId>>::op_range().contains(&opcode) {
            return <FieldInstr as Bytecode<LibId>>::decode_operands(reader, opcode).map(gfa);
        }
        match UsonicInstr::from_opcode(opcode) {
            Some(instr) => Ok(usonic(instr)),
            None => {
                <ReservedInstr as Bytecode<LibId>>::decode_operands(reader, opcode).map(reserved)
            },
        }
    }
}

fn run(code: &[Op], context: &VmContext) -> (Status, Vm<Op>) {
    let lib = Lib::assemble::<Op>(code).expect("a short program");
    let mut vm = Vm::<Op>::with(CoreConfig::default(), GfaConfig::default());
    let status = vm.exec(LibSite::new(lib.lib_id(), 0), context, |_| Some(&lib));
    (status, vm)
}

const ALL: [UsonicInstr; 12] = [
    UsonicInstr::CkNxIRo,
    UsonicInstr::CkNxIAo,
    UsonicInstr::CkNxORo,
    UsonicInstr::CkNxOAo,
    UsonicInstr::LdIRo,
    UsonicInstr::LdIAo,
    UsonicInstr::LdORo,
    UsonicInstr::LdOAo,
    UsonicInstr::RstIRo,
    UsonicInstr::RstIAo,
    UsonicInstr::RstORo,
    UsonicInstr::RstOAo,
];

#[test]
fn operation_codes_are_twelve_in_a_row() {
    for (ordinal, instr) in ALL.iter().enumerate() {
        let opcode = instr.opcode_byte();
        assert_eq!(opcode as usize, 128 + ordinal);
        assert_eq!(UsonicInstr::from_opcode(opcode), Some(*instr));
        assert_eq!(instr.code_byte_len(), 1);
    }
    assert_eq!((USONIC_OPCODE_START, USONIC_OPCODE_END), (128, 139));
    for opcode in 0..=255u8 {
        let known = (128..=139).contains(&opcode);
        assert_eq!(UsonicInstr::from_opcode(opcode).is_some(), known);
    }
}

#[test]
fn operation_codes_are_free_in_the_base_machine() {
    let ctrl_range = <CtrlInstr<LibId> as Bytecode<LibId>>::op_range();
    let field_range = <FieldInstr as Bytecode<LibId>>::op_range();
    for instr in ALL {
        assert!(!ctrl_range.contains(&instr.opcode_byte()));
        assert!(!field_range.contains(&instr.opcode_byte()));
    }
}

#[test]
fn a_program_is_assembled_and_read_back() {
    let mut code: Vec<Op> = ALL.iter().map(|instr| usonic(*instr)).collect();
    code.push(ctrl(CtrlInstr::NotCo));
    code.push(gfa(FieldInstr::Mov { dst: RegE::E1, src: RegE::EA }));
    code.push(ctrl(CtrlInstr::Jmp { pos: 3 }));
    code.push(reserved(ReservedInstr::default()));
    let lib = Lib::assemble::<Op>(&code).expect("a short program");
    assert_eq!(lib.code.len(), 12 + 1 + 2 + 3 + 1);
    assert_eq!(&lib.code[..12], &[128, 129, 130, 131, 132, 133, 134, 135, 136, 137, 138, 139]);
    assert_eq!(lib.disassemble::<Op>().expect("the same program"), code);
    assert_eq!(lib.isae_string(), "USONIC");
}

#[test]
fn a_program_accepts_one_input_and_refuses_none() {
    let code = [
        usonic(UsonicInstr::CkNxIAo),
        ctrl(CtrlInstr::ChkCo),
        usonic(UsonicInstr::LdIAo),
        ctrl(CtrlInstr::Stop),
    ];
    let inputs = [StateValue::Single(fe128(7))];
    let one = VmContext {
        read_once_input: &[],
        immutable_input: &inputs,
        read_once_output: &[],
        immutable_output: &[],
    };
    let (status, vm) = run(&code, &one);
    assert_eq!(status, Status::Ok);
    assert_eq!(vm.core.cx.ui, [0, 1, 0, 0]);
    assert_eq!(vm.core.get(RegE::EA), Some(fe256::from(7u128)));
    assert_eq!(vm.core.co(), Status::Ok);

    let none = VmContext {
        read_once_input: &[],
        immutable_input: &[],
        read_once_output: &[],
        immutable_output: &[],
    };
    let (status, vm) = run(&code, &none);
    assert_eq!(status, Status::Fail);
    assert_eq!(vm.core.cx.ui, [0; 4]);
    assert_eq!(vm.core.get(RegE::EA), None);
}

#[test]
fn a_program_walks_through_all_inputs() {
    // 0: load; 1: leave the loop when nothing was loaded; 4: add up; 6: go round; 9: stop
    let code = [
        usonic(UsonicInstr::LdIRo),
        ctrl(CtrlInstr::JiOvfl { pos: 9 }),
        gfa(FieldInstr::Add { dst_src: RegE::E1, src: RegE::EA }),
        ctrl(CtrlInstr::Jmp { pos: 0 }),
        ctrl(CtrlInstr::Stop),
    ];
    let mut program = vec![gfa(FieldInstr::PutZ { dst: RegE::E1 })];
    program.extend_from_slice(&code);
    // the loop starts two bytes further on, after the instruction which clears the sum
    program[2] = ctrl(CtrlInstr::JiOvfl { pos: 11 });
    program[4] = ctrl(CtrlInstr::Jmp { pos: 2 });
    let witnesses = [
        StateValue::Single(fe128(10)),
        StateValue::Double(fe128(20), fe128(1)),
        StateValue::Single(fe128(12)),
    ];
    let context = VmContext {
        read_once_input: &witnesses,
        immutable_input: &[],
        read_once_output: &[],
        immutable_output: &[],
    };
    let (status, vm) = run(&program, &context);
    assert_eq!(status, Status::Ok);
    assert_eq!(vm.core.cx.ui, [3, 0, 0, 0]);
    assert_eq!(vm.core.co(), Status::Fail);
    assert_eq!(vm.core.get(RegE::E1), Some(fe256::from(42u128)));
    assert_eq!(vm.core.get(RegE::EA), Some(fe256::from(12u128)));
    assert_eq!(vm.core.get(RegE::EB), None);
}

#[test]
fn a_reset_lets_a_program_walk_again() {
    let code = [
        usonic(UsonicInstr::LdOAo),
        usonic(UsonicInstr::LdOAo),
        usonic(UsonicInstr::LdIRo),
        usonic(UsonicInstr::RstOAo),
        usonic(UsonicInstr::CkNxOAo),
        ctrl(CtrlInstr::ChkCo),
        usonic(UsonicInstr::LdOAo),
        ctrl(CtrlInstr::Stop),
    ];
    let data =
        [StateData { value: StateValue::Single(fe128(5)), auth: AuthToken([0; 30]), raw: None }];
    let witnesses = [StateValue::Single(fe128(9))];
    let context = VmContext {
        read_once_input: &witnesses,
        immutable_input: &[],
        read_once_output: &[],
        immutable_output: &data,
    };
    let (status, vm) = run(&code, &context);
    assert_eq!(status, Status::Ok);
    assert_eq!(vm.core.cx.ui, [1, 0, 0, 1]);
    assert_eq!(vm.core.get(RegE::EA), Some(fe256::from(5u128)));
}

#[test]
fn a_reserved_instruction_fails_the_program() {
    let context = VmContext {
        read_once_input: &[],
        immutable_input: &[],
        read_once_output: &[],
        immutable_output: &[],
    };
    let code = [usonic(UsonicInstr::RstIRo), reserved(ReservedInstr::default())];
    let (status, vm) = run(&code, &context);
    assert_eq!(status, Status::Fail);
    assert_eq!(vm.core.cf(), 1);
    let (status, _) = run(&[usonic(UsonicInstr::LdIRo), ctrl(CtrlInstr::Stop)], &context);
    assert_eq!(status, Status::Ok);
}

#[test]
fn an_operation_is_verified_by_the_program_of_its_call() {
    // The program asks for one destructible input whose witness is the value of the one
    // immutable input, and for nothing more to come.
    let code = [
        usonic(UsonicInstr::LdIRo),
        ctrl(CtrlInstr::ChkCo),
        gfa(FieldInstr::Mov { dst: RegE::E1, src: RegE::EA }),
        usonic(UsonicInstr::LdIAo),
        ctrl(CtrlInstr::ChkCo),
        gfa(FieldInstr::Eq { src1: RegE::E1, src2: RegE::EA }),
        ctrl(CtrlInstr::ChkCo),
        usonic(UsonicInstr::CkNxIRo),
        ctrl(CtrlInstr::NotCo),
        ctrl(CtrlInstr::ChkCo),
        ctrl(CtrlInstr::Stop),
    ];
    let lib = Lib::assemble::<Op>(&code).expect("a short program");
    let call_id = CallId([1; 32]);
    let mut verifiers = Verifiers::new();
    assert!(verifiers.insert(
        call_id,
        ultrasonic::LibSite::new(ultrasonic::LibId(lib.lib_id().to_byte_array()), 0)
    ));
    let codex = Codex {
        name: Text::new(),
        developer: Text::new(),
        field_order: FieldOrder::Secp,
        verifiers,
        timestamp: 0,
        version: 0,
    };

    let mut memory = Memory::new();
    let genesis = Opid([9; 32]);
    let cells = SmallVec::try_from_vec(vec![
        StateCell { data: StateValue::Single(fe128(1)), seal: fe128(0), lock: None },
        StateCell { data: StateValue::Single(fe128(2)), seal: fe128(0), lock: None },
    ])
    .expect("two cells");
    let datas = SmallVec::try_from_vec(vec![StateData {
        value: StateValue::Single(fe128(77)),
        auth: AuthToken([0; 30]),
        raw: None,
    }])
    .expect("one cell");
    memory.commit(genesis, &cells, &datas);

    let operation = |witnesses: Vec<u128>, call: CallId| Operation {
        contract_id: ContractId([0; 32]),
        call_id: call,
        nonce: 0,
        destructible_in: SmallVec::try_from_vec(
            witnesses
                .iter()
                .enumerate()
                .map(|(pos, witness)| Input {
                    addr: CellAddr::new(genesis, pos as u16),
                    witness: StateValue::Single(fe128(*witness)),
                })
                .collect(),
        )
        .expect("few inputs"),
        immutable_in: SmallVec::try_from_vec(vec![CellAddr::new(genesis, 0)])
            .expect("one input"),
        destructible_out: SmallVec::new(),
        immutable_out: SmallVec::new(),
    };
    let run = |call: &ultrasonic::Call, context: &VmContext| {
        let order = amplify::num::u256::from_inner(call.field_order.limbs());
        let mut vm = Vm::<Op>::with(CoreConfig::default(), GfaConfig { field_order: order });
        let entry = LibSite::new(LibId::from(call.entry.lib_id.0), call.entry.offset);
        match vm.exec(entry, context, |id| if id == lib.lib_id() { Some(&lib) } else { None }) {
            Status::Ok => ultrasonic::Status::Okay,
            Status::Fail => ultrasonic::Status::Fail,
        }
    };

    assert_eq!(codex.verify(&operation(vec![77], call_id), &memory, run), Ok(()));
    assert_eq!(
        codex.verify(&operation(vec![78], call_id), &memory, run),
        Err(CallError::VerifierFail)
    );
    assert_eq!(
        codex.verify(&operation(vec![77, 77], call_id), &memory, run),
        Err(CallError::VerifierFail)
    );
    assert_eq!(
        codex.verify(&operation(vec![], call_id), &memory, run),
        Err(CallError::VerifierFail)
    );
    assert_eq!(
        codex.verify(&operation(vec![77], CallId([2; 32])), &memory, run),
        Err(CallError::UnknownCallId(CallId([2; 32])))
    );
    assert_eq!(
        codex.verify(&operation(vec![77, 77, 77], call_id), &memory, run),
        Err(CallError::DoubleSpend(CellAddr::new(genesis, 2)))
    );
    let applied = memory.apply(&operation(vec![77], call_id)).expect("the inputs resolve");
    assert_eq!(applied, operation(vec![77], call_id).opid());
    assert_eq!(
        codex.verify(&operation(vec![77], call_id), &memory, run),
        Err(CallError::DoubleSpend(CellAddr::new(genesis, 0)))
    );
}
