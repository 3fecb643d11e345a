//! The register core of the machine: the base core, and the iterator registers which extend it.

use amplify::num::{u256, u4};
use vstd::prelude::*;
use zkaluvm::alu::regs::Status as AluStatus;
use zkaluvm::alu::{Core, CoreConfig, CoreExt, LibId as AluLibId};
use zkaluvm::{fe256, GfaConfig, GfaCore, RegE as AluRegE};

use crate::codex::{IoCat, VmContext};
use crate::library::LibSite;
use crate::state::fe128;

verus! {

/// Number of the field registers of the base core.
pub const REG_COUNT: u8 = 16;

/// State of a flag register.
#[derive(Copy, Clone, PartialEq, Eq, Structural, Hash, Debug)]
pub enum Status {
    /// The flag is not set: nothing has failed.
    Okay,
    /// The flag is set: something has failed.
    Fail,
}

/// Field register of the base core.
#[derive(Copy, Clone, PartialEq, Eq, Structural, Hash, Debug)]
pub enum RegE {
    E1,
    E2,
    E3,
    E4,
    E5,
    E6,
    E7,
    E8,
    EA,
    EB,
    EC,
    ED,
    EE,
    EF,
    EG,
    EH,
}

impl RegE {
    /// Number of the register in the register file.
    pub open spec fn spec_index(self) -> int {
        match self {
            RegE::E1 => 0,
            RegE::E2 => 1,
            RegE::E3 => 2,
            RegE::E4 => 3,
            RegE::E5 => 4,
            RegE::E6 => 5,
            RegE::E7 => 6,
            RegE::E8 => 7,
            RegE::EA => 8,
            RegE::EB => 9,
            RegE::EC => 10,
            RegE::ED => 11,
            RegE::EE => 12,
            RegE::EF => 13,
            RegE::EG => 14,
            RegE::EH => 15,
        }
    }

    /// Number of the register in the register file.
    pub fn index(self) -> (i: u8)
        ensures
            i == self.spec_index(),
            i < REG_COUNT,
    {
        match self {
            RegE::E1 => 0,
            RegE::E2 => 1,
            RegE::E3 => 2,
            RegE::E4 => 3,
            RegE::E5 => 4,
            RegE::E6 => 5,
            RegE::E7 => 6,
            RegE::E8 => 7,
            RegE::EA => 8,
            RegE::EB => 9,
            RegE::EC => 10,
            RegE::ED => 11,
            RegE::EE => 12,
            RegE::EF => 13,
            RegE::EG => 14,
            RegE::EH => 15,
        }
    }

    /// The register with the given number.
    pub fn from_index(index: u8) -> (reg: RegE)
        requires
            index < REG_COUNT,
        ensures
            reg.spec_index() == index,
    {
        match index {
            0 => RegE::E1,
            1 => RegE::E2,
            2 => RegE::E3,
            3 => RegE::E4,
            4 => RegE::E5,
            5 => RegE::E6,
            6 => RegE::E7,
            7 => RegE::E8,
            8 => RegE::EA,
            9 => RegE::EB,
            10 => RegE::EC,
            11 => RegE::ED,
            12 => RegE::EE,
            13 => RegE::EF,
            14 => RegE::EG,
            _ => RegE::EH,
        }
    }
}

/// The number which four 64-bit limbs stand for, the least significant limb first.
pub open spec fn limbs_value(limbs: Seq<u64>) -> nat
    recommends
        limbs.len() == 4,
{
    (limbs[0] + limbs[1] * 0x1_0000_0000_0000_0000 + limbs[2]
        * 0x1_0000_0000_0000_0000_0000_0000_0000_0000 + limbs[3]
        * 0x1_0000_0000_0000_0000_0000_0000_0000_0000_0000_0000_0000_0000) as nat
}

/// What the registers of a base core hold.
pub struct CoreState {
    /// Halt register: whether a failure of `CK` stops the program.
    pub ch: bool,
    /// Check register: the verdict, which stays failed once it has failed.
    pub ck: Status,
    /// Failure counter: how many times `CK` has been set to the failed state.
    pub cf: u64,
    /// Test register: the outcome of the last test, which a program can branch on.
    pub co: Status,
    /// Counter of jumps.
    pub cy: u16,
    /// Accumulated complexity.
    pub ca: u64,
    /// Limit of the accumulated complexity.
    pub cl: Option<u64>,
    /// Call stack.
    pub cs: Seq<LibSite>,
    /// Order of the field.
    pub fq: nat,
    /// Field registers, by their numbers: the number each one holds.
    pub e: Map<int, Option<nat>>,
}

impl CoreState {
    /// State in which a core starts.
    pub open spec fn initial(
        halt: bool,
        complexity_lim: Option<u64>,
        field_order: nat,
    ) -> CoreState {
        CoreState {
            ch: halt,
            ck: Status::Okay,
            cf: 0,
            co: Status::Okay,
            cy: 0,
            ca: 0,
            cl: complexity_lim,
            cs: Seq::empty(),
            fq: field_order,
            e: Map::new(|i: int| 0 <= i < REG_COUNT, |i: int| None),
        }
    }

    /// The state with another value of the test register.
    pub open spec fn with_co(self, co: Status) -> CoreState {
        CoreState { co, ..self }
    }

    /// The state with a field register filled anew, or cleared.
    pub open spec fn with_reg(self, reg: int, val: Option<fe128>) -> CoreState {
        CoreState {
            e: self.e.insert(
                reg,
                match val {
                    Some(el) => Some(el.0 as nat),
                    None => None,
                },
            ),
            ..self
        }
    }
}

/// Base core of the machine: the control registers and the field registers.
///
/// The registers are those of the `Core` of AluVM with the field registers of zk-AluVM, which
/// is kept whole: only the operations of those crates read and write it.
#[verifier::external_body]
pub struct BaseCore(pub Core<AluLibId, GfaCore>);

/// What the registers of a base core hold.
pub uninterp spec fn core_state(core: BaseCore) -> CoreState;

/// `Core::with` of AluVM: a core in its starting state, for the given field order.
#[verifier::external_body]
fn base_with(halt: bool, complexity_lim: Option<u64>, field_order: [u64; 4]) -> (core: BaseCore)
    ensures
        core_state(core) == CoreState::initial(halt, complexity_lim, limbs_value(field_order@)),
{
    let config = GfaConfig { field_order: u256::from_inner(field_order) };
    BaseCore(Core::with(CoreConfig { halt, complexity_lim }, config))
}

/// `Core::cf` of AluVM: reads the counter of failures.
#[verifier::external_body]
fn base_cf(core: &BaseCore) -> (cf: u64)
    ensures
        cf == core_state(*core).cf,
{
    core.0.cf()
}

/// `Core::co` of AluVM: reads the test register.
#[verifier::external_body]
fn base_co(core: &BaseCore) -> (co: Status)
    ensures
        co == core_state(*core).co,
{
    match core.0.co() {
        AluStatus::Ok => Status::Okay,
        AluStatus::Fail => Status::Fail,
    }
}

/// `Core::ck` of AluVM: reads the check register.
#[verifier::external_body]
fn base_ck(core: &BaseCore) -> (ck: Status)
    ensures
        ck == core_state(*core).ck,
{
    match core.0.ck() {
        AluStatus::Ok => Status::Okay,
        AluStatus::Fail => Status::Fail,
    }
}

/// `Core::set_co` of AluVM: writes the test register and nothing else.
#[verifier::external_body]
fn base_set_co(core: &mut BaseCore, co: Status)
    ensures
        core_state(*final(core)) == core_state(*old(core)).with_co(co),
{
    core.0.set_co(match co {
        Status::Okay => AluStatus::Ok,
        Status::Fail => AluStatus::Fail,
    });
}

/// `GfaCore::fq` of zk-AluVM: the order of the field, as its four limbs.
#[verifier::external_body]
fn base_fq(core: &BaseCore) -> (limbs: [u64; 4])
    ensures
        limbs_value(limbs@) == core_state(*core).fq,
{
    core.0.cx.fq().into_inner()
}

/// `Core::get` of AluVM: the number which a field register holds, as its four limbs, or
/// nothing where the register is clear.
#[verifier::external_body]
fn base_get(core: &BaseCore, reg: u8) -> (val: Option<[u64; 4]>)
    requires
        reg < REG_COUNT,
    ensures
        match val {
            Some(limbs) => core_state(*core).e[reg as int] == Some(limbs_value(limbs@)),
            None => core_state(*core).e[reg as int] is None,
        },
{
    core.0.get(AluRegE::from(u4::with(reg))).map(|el| el.to_u256().into_inner())
}

/// `CoreExt::put` of the field registers of zk-AluVM: fills one register with a field element, or
/// clears it, and changes nothing else. The element has to be below the order of the field.
#[verifier::external_body]
fn base_put(core: &mut BaseCore, reg: u8, val: Option<fe128>)
    requires
        reg < REG_COUNT,
        val matches Some(el) ==> el.0 < core_state(*old(core)).fq,
    ensures
        core_state(*final(core)) == core_state(*old(core)).with_reg(reg as int, val),
{
    core.0.cx.put(AluRegE::from(u4::with(reg)), val.map(|el| fe256::from(el.0)));
}

/// Order of the field which a program computes in.
#[derive(Copy, Clone, PartialEq, Eq, Structural, Hash, Debug)]
pub enum FieldOrder {
    /// Order of the group of the curve 25519.
    Curve25519,
    /// Order of the field of the STARK curve.
    Stark,
    /// Order of the group of the curve secp256k1.
    Secp,
}

/// Limbs of the order of the group of the curve 25519.
pub const FIELD_ORDER_25519: [u64; 4] = [
    0xFFFF_FFFF_FFFF_FFEC,
    0xFFFF_FFFF_FFFF_FFFF,
    0xFFFF_FFFF_FFFF_FFFF,
    0x8FFF_FFFF_FFFF_FFFF,
];

/// Limbs of the order of the field of the STARK curve.
pub const FIELD_ORDER_STARK: [u64; 4] = [1, 0, 17, 0x0800_0000_0000_0000];

/// Limbs of the order of the group of the curve secp256k1.
pub const FIELD_ORDER_SECP: [u64; 4] = [
    0xFFFF_FFFE_FFFF_FC2E,
    0xFFFF_FFFF_FFFF_FFFF,
    0xFFFF_FFFF_FFFF_FFFF,
    0xFFFF_FFFF_FFFF_FFFF,
];

impl FieldOrder {
    /// The order as a number.
    pub open spec fn value(self) -> nat {
        limbs_value(self.spec_limbs()@)
    }

    /// The order as its four limbs, the least significant first.
    pub open spec fn spec_limbs(self) -> [u64; 4] {
        match self {
            FieldOrder::Curve25519 => FIELD_ORDER_25519,
            FieldOrder::Stark => FIELD_ORDER_STARK,
            FieldOrder::Secp => FIELD_ORDER_SECP,
        }
    }

    /// The order as its four limbs, the least significant first.
    pub fn limbs(self) -> (limbs: [u64; 4])
        ensures
            limbs == self.spec_limbs(),
    {
        match self {
            FieldOrder::Curve25519 => FIELD_ORDER_25519,
            FieldOrder::Stark => FIELD_ORDER_STARK,
            FieldOrder::Secp => FIELD_ORDER_SECP,
        }
    }

    /// Every field element of 128 bits is below each of the orders.
    pub proof fn lemma_holds_fe128(self)
        ensures
            self.value() > u128::MAX,
    {
    }
}

/// What the registers of the whole core hold: those of the base core, and the four iterator
/// registers `UI`, one for each category of state.
pub struct UsonicState {
    pub base: CoreState,
    pub ui: Seq<u16>,
}

impl UsonicState {
    /// Whether the iterator of a category has not come to the end of the category.
    pub open spec fn has_next(self, cat: IoCat, context: VmContext) -> bool {
        self.ui[cat.spec_index()] < context.values(cat).len()
    }

    /// The state after the test for a next item: `CO` tells the answer, nothing else changes.
    pub open spec fn check_next(self, cat: IoCat, context: VmContext) -> UsonicState {
        UsonicState {
            base: self.base.with_co(
                if self.has_next(cat, context) {
                    Status::Okay
                } else {
                    Status::Fail
                },
            ),
            ..self
        }
    }

    /// The state after a load. Where the category has a next item, its value fills `EA` to `ED`
    /// (the registers past its arity are cleared), `CO` is reset and the iterator moves on;
    /// else `CO` fails and nothing else changes.
    pub open spec fn load(self, cat: IoCat, context: VmContext) -> UsonicState {
        if self.has_next(cat, context) {
            let pos = self.ui[cat.spec_index()];
            let val = context.values(cat)[pos as int];
            UsonicState {
                base: self.base.with_reg(RegE::EA.spec_index(), val.spec_get(0)).with_reg(
                    RegE::EB.spec_index(),
                    val.spec_get(1),
                ).with_reg(RegE::EC.spec_index(), val.spec_get(2)).with_reg(
                    RegE::ED.spec_index(),
                    val.spec_get(3),
                ).with_co(Status::Okay),
                ui: self.ui.update(cat.spec_index(), (pos + 1) as u16),
            }
        } else {
            UsonicState { base: self.base.with_co(Status::Fail), ..self }
        }
    }

    /// The state after a reset: the iterator of the category is back at the start, nothing else
    /// changes.
    pub open spec fn reset(self, cat: IoCat) -> UsonicState {
        UsonicState { ui: self.ui.update(cat.spec_index(), 0), ..self }
    }
}

/// Core of the machine: the base core, extended by four iterator registers `UI`, which count
/// how far a program has walked through each category of state.
pub struct UsonicCore {
    /// The control and field registers.
    pub base: BaseCore,
    /// The iterator registers, in the order of [`IoCat`].
    pub ui: [u16; 4],
}

impl View for UsonicCore {
    type V = UsonicState;

    open spec fn view(&self) -> UsonicState {
        UsonicState { base: core_state(self.base), ui: self.ui@ }
    }
}

impl UsonicCore {
    /// The field of the core is large enough for every field element of 128 bits.
    pub open spec fn wf(&self) -> bool {
        core_state(self.base).fq > u128::MAX
    }

    /// A core in its starting state: flags clear, registers empty, iterators at zero.
    pub fn with(halt: bool, complexity_lim: Option<u64>, field_order: FieldOrder) -> (core:
        UsonicCore)
        ensures
            core.wf(),
            core@ == (UsonicState {
                base: CoreState::initial(halt, complexity_lim, field_order.value()),
                ui: seq![0u16, 0u16, 0u16, 0u16],
            }),
    {
        let base = base_with(halt, complexity_lim, field_order.limbs());
        let core = UsonicCore { base, ui: [0, 0, 0, 0] };
        assert(core.ui@ =~= seq![0u16, 0u16, 0u16, 0u16]);
        core
    }

    /// Puts iterator registers onto a base core, unless the field of that core is too small to
    /// hold every field element of 128 bits.
    pub fn attach(base: BaseCore, ui: [u16; 4]) -> (core: Option<UsonicCore>)
        ensures
            core is Some <==> core_state(base).fq > u128::MAX,
            core matches Some(c) ==> c.base == base && c.ui == ui,
    {
        let limbs = base_fq(&base);
        if limbs[2] != 0 || limbs[3] != 0 {
            Some(UsonicCore { base, ui })
        } else {
            None
        }
    }

    /// Tells whether the field of the core is large enough for every field element of 128
    /// bits.
    pub fn is_wf(&self) -> (ok: bool)
        ensures
            ok == self.wf(),
    {
        let limbs = base_fq(&self.base);
        limbs[2] != 0 || limbs[3] != 0
    }

    /// The order of the field `FQ`, as four limbs with the least significant first.
    pub fn fq(&self) -> (limbs: [u64; 4])
        ensures
            limbs_value(limbs@) == self@.base.fq,
    {
        base_fq(&self.base)
    }

    /// The counter of failures `CF`: how many times `CK` has been set to the failed state.
    pub fn cf(&self) -> (cf: u64)
        ensures
            cf == self@.base.cf,
    {
        base_cf(&self.base)
    }

    /// The test register `CO`.
    pub fn co(&self) -> (co: Status)
        ensures
            co == self@.base.co,
    {
        base_co(&self.base)
    }

    /// The check register `CK`.
    pub fn ck(&self) -> (ck: Status)
        ensures
            ck == self@.base.ck,
    {
        base_ck(&self.base)
    }

    /// Sets the test register `CO`.
    pub fn set_co(&mut self, co: Status)
        ensures
            final(self)@ == (UsonicState { base: old(self)@.base.with_co(co), ..old(self)@ }),
            old(self).wf() ==> final(self).wf(),
    {
        base_set_co(&mut self.base, co);
    }

    /// The number in a field register, as four limbs with the least significant first; nothing
    /// where the register is clear.
    pub fn get(&self, reg: RegE) -> (val: Option<[u64; 4]>)
        ensures
            match val {
                Some(limbs) => self@.base.e[reg.spec_index()] == Some(limbs_value(limbs@)),
                None => self@.base.e[reg.spec_index()] is None,
            },
    {
        base_get(&self.base, reg.index())
    }

    /// The iterator register of a category.
    pub fn ui(&self, cat: IoCat) -> (pos: u16)
        ensures
            pos == self@.ui[cat.spec_index()],
    {
        self.ui[cat.index()]
    }

    /// Tells whether the iterator of a category has not come to the end of the category.
    pub fn has_next(&self, cat: IoCat, context: &VmContext) -> (more: bool)
        ensures
            more == self@.has_next(cat, *context),
    {
        (self.ui[cat.index()] as usize) < context.len(cat)
    }

    /// Loads the next state value of a category into the registers `EA` to `ED` and moves the
    /// iterator on; where the category is exhausted, only `CO` tells so.
    pub fn load(&mut self, cat: IoCat, context: &VmContext) -> (step: ExecStep)
        requires
            old(self).wf(),
            context.wf(),
        ensures
            final(self).wf(),
            final(self)@ == old(self)@.load(cat, *context),
            step == ExecStep::Next,
    {
        let pos = self.ui[cat.index()];
        match context.state_value(cat, pos) {
            Some(val) => {
                base_put(&mut self.base, RegE::EA.index(), val.get(0));
                base_put(&mut self.base, RegE::EB.index(), val.get(1));
                base_put(&mut self.base, RegE::EC.index(), val.get(2));
                base_put(&mut self.base, RegE::ED.index(), val.get(3));
                base_set_co(&mut self.base, Status::Okay);
                self.ui[cat.index()] = pos + 1;
            },
            None => {
                base_set_co(&mut self.base, Status::Fail);
            },
        }
        ExecStep::Next
    }

    /// Puts the iterator of a category back to the start.
    pub fn reset(&mut self, cat: IoCat)
        ensures
            final(self)@ == old(self)@.reset(cat),
            old(self).wf() ==> final(self).wf(),
    {
        self.ui[cat.index()] = 0;
    }
}

/// What the machine does after an instruction.
#[derive(Copy, Clone, PartialEq, Eq, Hash, Debug)]
pub enum ExecStep {
    /// Stop the program.
    Stop,
    /// Set `CK` to the failed state; the program halts where `CH` is set.
    Fail,
    /// Go to the next instruction.
    Next,
    /// Jump to an offset in the same library.
    Jump(u16),
    /// Enter code of another library.
    Call(LibSite),
    /// Return to the instruction after the one which called.
    Ret(LibSite),
}

} // verus!
