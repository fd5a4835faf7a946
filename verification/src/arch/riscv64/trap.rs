//! The dispatcher for guest traps.
//!
//! A trap alternates decisions with work that only the machine can do: a
//! load from guest memory, a call of a device's emulation, a write to a
//! control register. The decisions are the functions of this file. Each takes
//! what the hardware reported and returns a [`TrapStep`]: the work to do
//! next, with the function that goes on from its outcome. The embedding does
//! the work, and stops the core on [`TrapStep::Halt`].

use crate::arch::riscv64::cpu::ArchCpu;
use crate::arch::riscv64::inst::{
    decode_inst, fetched_width, spec_decoded, spec_fetched_width, spec_known,
};
use crate::vmexitinfo::{spec_counted, VmExitInfo};
use vstd::prelude::*;

verus! {

/// Cause of an exception: environment call from the guest's user level.
pub const ECALL_VU: usize = 8;

/// Cause of an exception: environment call from the guest's supervisor.
pub const ECALL_VS: usize = 10;

/// Cause of an exception: a load found no second-stage translation.
pub const LOAD_GUEST_PAGE_FAULT: usize = 21;

/// Cause of an exception: a store found no second-stage translation.
pub const STORE_GUEST_PAGE_FAULT: usize = 23;

/// Cause of an interrupt: supervisor software interrupt.
pub const SSI: usize = 1;

/// Cause of an interrupt: supervisor timer interrupt.
pub const STI: usize = 5;

/// Cause of an interrupt: supervisor external interrupt.
pub const SEI: usize = 9;

/// The bits of `scause` that number an interrupt.
pub const INTERRUPT_CODE_MASK: usize = 0xfff;

/// `hstatus.SPV`: the trap came from the guest.
pub const HSTATUS_SPV: usize = 0x80;

/// `sip.SSIP`: a supervisor software interrupt is pending.
pub const SIP_SSIP: usize = 0x2;

/// `sie.STIE`: supervisor timer interrupts are enabled.
pub const SIE_STIE: usize = 0x20;

/// `hvip.VSSIP`: a software interrupt is pending for the guest.
pub const HVIP_VSSIP: usize = 0x4;

/// `hvip.VSTIP`: a timer interrupt is pending for the guest.
pub const HVIP_VSTIP: usize = 0x40;

/// `hvip.VSEIP`: an external interrupt is pending for the guest.
pub const HVIP_VSEIP: usize = 0x400;

/// What the hardware reports of a fault on a walk of the guest's own page
/// table, in place of an instruction: for a read of the table.
pub const PSEUDO_INST_WALK_READ: u32 = 0x3000;

/// As `PSEUDO_INST_WALK_READ`, for a write to the table.
pub const PSEUDO_INST_WALK_WRITE: u32 = 0x3020;

/// Size of the window of the interrupt controller that all cores of a guest
/// share: priorities, pending bits and enables.
pub const PLIC_GLOBAL_SIZE: usize = 0x200000;

/// Size of both windows of the interrupt controller together.
pub const PLIC_TOTAL_SIZE: usize = 0x400000;

/// Number of contexts of the interrupt controller: two for each core, one for
/// each privilege level.
pub const PLIC_MAX_CONTEXT: usize = 64;

/// Size of the registers of one context in the per-hart window.
pub const PLIC_CONTEXT_SIZE: usize = 0x1000;

/// Offset of the claim register among the registers of a context.
pub const PLIC_CLAIM_OFFSET: usize = 0x4;

/// What the hardware reports of one trap. It is read anew at every trap.
#[derive(Clone, Copy, Debug, PartialEq, Eq, Structural)]
pub struct TrapContext {
    /// `scause`: the cause of the trap.
    pub scause: usize,
    /// `hstatus`: where the trap came from.
    pub hstatus: usize,
    /// `htval`: for a guest page fault, the faulting guest-physical address,
    /// shifted right by two bits.
    pub htval: usize,
    /// `htinst`: zero, a pseudo-instruction, or the trapped instruction in a
    /// transformed form.
    pub htinst: usize,
}

/// The interrupt controller of the host, as far as trap handling uses it.
#[derive(Clone, Copy, Debug)]
pub struct Plic {
    /// Address of the controller's registers.
    pub base: usize,
    /// For each context, the interrupt that it claimed last and has yet to
    /// complete.
    pub claim_complete: [u32; PLIC_MAX_CONTEXT],
}

impl Plic {
    /// Both windows of the controller lie in the address space.
    pub open spec fn wf(&self) -> bool {
        self.base + PLIC_TOTAL_SIZE <= usize::MAX
    }

    /// The controller at `base`, with nothing claimed.
    pub fn new(base: usize) -> (plic: Self)
        ensures
            plic.base == base,
            plic.claim_complete@ == Seq::new(PLIC_MAX_CONTEXT as nat, |i: int| 0u32),
    {
        Plic { base, claim_complete: [0u32; PLIC_MAX_CONTEXT] }
    }

    /// Tells whether both windows of the controller lie in the address space.
    pub fn is_wf(&self) -> (ok: bool)
        ensures
            ok == self.wf(),
    {
        self.base <= usize::MAX - PLIC_TOTAL_SIZE
    }
}

/// The two windows of the interrupt controller.
#[derive(Clone, Copy, Debug, PartialEq, Eq, Structural)]
pub enum PlicWindow {
    /// The low window, which all cores of a guest share.
    Global,
    /// The high window, with the claim and complete registers of each context.
    Hart,
}

/// The window of the controller at `base` that `addr` lies in, if any.
pub open spec fn spec_plic_window(base: usize, addr: usize) -> Option<PlicWindow> {
    if base <= addr < base + PLIC_GLOBAL_SIZE {
        Some(PlicWindow::Global)
    } else if base + PLIC_GLOBAL_SIZE <= addr < base + PLIC_TOTAL_SIZE {
        Some(PlicWindow::Hart)
    } else {
        None
    }
}

/// Finds the window of the controller at `base` that `addr` lies in.
pub fn plic_window(base: usize, addr: usize) -> (window: Option<PlicWindow>)
    requires
        base + PLIC_TOTAL_SIZE <= usize::MAX,
    ensures
        window == spec_plic_window(base, addr),
{
    if addr >= base && addr < base + PLIC_TOTAL_SIZE {
        if addr >= base + PLIC_GLOBAL_SIZE {
            Some(PlicWindow::Hart)
        } else {
            Some(PlicWindow::Global)
        }
    } else {
        None
    }
}

/// The first address of the controller lies in the global window, the first
/// address behind the global window in the per-hart window, and so does the
/// last address of the controller; the address behind that lies in no window.
pub proof fn lemma_plic_window_bounds(base: usize)
    requires
        base + PLIC_TOTAL_SIZE <= usize::MAX,
    ensures
        spec_plic_window(base, base) == Some(PlicWindow::Global),
        spec_plic_window(base, (base + PLIC_GLOBAL_SIZE - 1) as usize) == Some(PlicWindow::Global),
        spec_plic_window(base, (base + PLIC_GLOBAL_SIZE) as usize) == Some(PlicWindow::Hart),
        spec_plic_window(base, (base + PLIC_TOTAL_SIZE - 1) as usize) == Some(PlicWindow::Hart),
        spec_plic_window(base, (base + PLIC_TOTAL_SIZE) as usize).is_none(),
        base > 0 ==> spec_plic_window(base, (base - 1) as usize).is_none(),
{
}

/// Why a core stops for good. Nothing can be done for a guest whose state
/// the hypervisor no longer knows.
#[derive(Clone, Copy, Debug, PartialEq, Eq, Structural)]
pub enum HaltReason {
    /// The trap did not come from the guest: the hypervisor itself faulted.
    NotFromGuest { scause: usize, hstatus: usize },
    /// The guest's user level made an environment call.
    EcallFromUser,
    /// An exception that nothing handles.
    UnhandledException { cpuid: usize, scause: usize, htval: usize, htinst: usize, sepc: usize },
    /// An interrupt that nothing handles.
    UnhandledInterrupt { scause: usize, sepc: usize },
    /// The guest accessed an address that is neither mapped nor emulated.
    UnmappedAccess { cpuid: usize, addr: usize },
    /// The instruction that trapped could not be decoded.
    InvalidInstruction { sepc: usize },
    /// The core has no context in the interrupt controller.
    NoContext { cpuid: usize },
}

/// What is to be done next for a trap.
#[derive(Clone, Copy, Debug, PartialEq, Eq, Structural)]
pub enum TrapStep {
    /// Nothing: the guest goes on.
    Resume,
    /// The core stops.
    Halt(HaltReason),
    /// Serve the guest's environment call, then move its program counter
    /// forward by `advance` and let it go on.
    Hypercall { advance: usize },
    /// Load the instruction at `pc` from guest memory, bypassing execute-only
    /// protection, beginning with `read_inst`; then hand it to
    /// `guest_page_fault_fetched`. The load is attempted even where
    /// `misaligned` says that `pc` is odd.
    FetchInstruction { window: PlicWindow, addr: usize, pc: usize, misaligned: bool },
    /// Let the emulation of `window` perform the access to `addr` that the
    /// instruction `inst` makes, once; then move the guest's program counter
    /// forward by `advance` and let it go on.
    Emulate { window: PlicWindow, addr: usize, inst: u32, advance: usize },
    /// Hand the fault back to the guest as its own: it arose at `addr` on a
    /// walk of the guest's own page table, of which `report` is what the
    /// hardware gave in place of an instruction. Nothing is emulated, and
    /// the guest's program counter is not moved past the instruction: the
    /// guest takes the fault at it.
    ReflectFault { addr: usize, report: u32 },
    /// Set the bits `hvip_set` of `hvip` and clear the bits `sie_clear` of
    /// `sie`; the guest goes on.
    TimerInterrupt { hvip_set: usize, sie_clear: usize },
    /// Clear the bits `sip_clear` of `sip`, set the bits `hvip_set` of `hvip`,
    /// and look for events that other cores have sent; the guest goes on.
    SoftwareInterrupt { sip_clear: usize, hvip_set: usize },
    /// Read the claim register at `claim_addr`, and hand the interrupt that it
    /// gives to `record_claim` for the context `context_id`.
    ClaimExternal { context_id: usize, claim_addr: usize },
    /// Set the bits `hvip_set` of `hvip`; the guest goes on.
    ExternalInterrupt { hvip_set: usize },
}

/// The kinds of exception that the dispatcher tells apart.
#[derive(Clone, Copy, Debug, PartialEq, Eq, Structural)]
pub enum ExceptionType {
    /// Environment call from the guest's user level.
    EcallVu,
    /// Environment call from the guest's supervisor.
    EcallVs,
    /// Guest page fault on a load.
    LoadGuestPageFault,
    /// Guest page fault on a store.
    StoreGuestPageFault,
    /// Any other exception.
    Other,
}

/// The kinds of interrupt that the dispatcher tells apart.
#[derive(Clone, Copy, Debug, PartialEq, Eq, Structural)]
pub enum InterruptType {
    /// Supervisor software interrupt.
    Ssi,
    /// Supervisor timer interrupt.
    Sti,
    /// Supervisor external interrupt.
    Sei,
    /// Any other interrupt.
    Other,
}

/// The kind of the exception with the cause `scause`.
pub open spec fn spec_exception_type(scause: usize) -> ExceptionType {
    if scause == ECALL_VU {
        ExceptionType::EcallVu
    } else if scause == ECALL_VS {
        ExceptionType::EcallVs
    } else if scause == LOAD_GUEST_PAGE_FAULT {
        ExceptionType::LoadGuestPageFault
    } else if scause == STORE_GUEST_PAGE_FAULT {
        ExceptionType::StoreGuestPageFault
    } else {
        ExceptionType::Other
    }
}

/// The kind of the interrupt with the cause `scause`: its low twelve bits
/// number it.
pub open spec fn spec_interrupt_type(scause: usize) -> InterruptType {
    let code = scause & INTERRUPT_CODE_MASK;
    if code == STI {
        InterruptType::Sti
    } else if code == SSI {
        InterruptType::Ssi
    } else if code == SEI {
        InterruptType::Sei
    } else {
        InterruptType::Other
    }
}

/// Tells the kind of the exception with the cause `scause`.
pub fn exception_type(scause: usize) -> (kind: ExceptionType)
    ensures
        kind == spec_exception_type(scause),
{
    if scause == ECALL_VU {
        ExceptionType::EcallVu
    } else if scause == ECALL_VS {
        ExceptionType::EcallVs
    } else if scause == LOAD_GUEST_PAGE_FAULT {
        ExceptionType::LoadGuestPageFault
    } else if scause == STORE_GUEST_PAGE_FAULT {
        ExceptionType::StoreGuestPageFault
    } else {
        ExceptionType::Other
    }
}

/// Tells the kind of the interrupt with the cause `scause`.
pub fn interrupt_type(scause: usize) -> (kind: InterruptType)
    ensures
        kind == spec_interrupt_type(scause),
{
    let code = scause & INTERRUPT_CODE_MASK;
    if code == STI {
        InterruptType::Sti
    } else if code == SSI {
        InterruptType::Ssi
    } else if code == SEI {
        InterruptType::Sei
    } else {
        InterruptType::Other
    }
}

/// What the hardware's report `htinst` says of the instruction that trapped.
#[derive(Clone, Copy, Debug, PartialEq, Eq, Structural)]
pub enum TrappedInst {
    /// Nothing: the instruction has to be fetched from guest memory.
    Absent,
    /// The fault arose on a walk of the guest's own page table. The value
    /// stands for no instruction of the guest, and nothing is decoded.
    PageTableWalk { inst: u32 },
    /// The instruction, with the bit forced that marks a standard encoding,
    /// and the width of the instruction as it stands in guest memory.
    Provided { inst: u32, width: usize },
}

/// What `htinst` says of the instruction that trapped. The low 32 bits
/// count. A report other than zero and the two pseudo-instructions is the
/// instruction itself, in which bit 1 tells the width that it has in guest
/// memory: clear for a compressed one.
pub open spec fn spec_trapped_inst(htinst: usize) -> TrappedInst {
    let inst = htinst as u32;
    if inst == 0 {
        TrappedInst::Absent
    } else if inst == PSEUDO_INST_WALK_WRITE || inst == PSEUDO_INST_WALK_READ {
        TrappedInst::PageTableWalk { inst }
    } else {
        TrappedInst::Provided {
            inst: inst | 0b10,
            width: if inst & 0b10 == 0 {
                2
            } else {
                4
            },
        }
    }
}

/// Reads from `htinst` what the hardware says of the instruction that trapped.
pub fn trapped_inst(htinst: usize) -> (report: TrappedInst)
    ensures
        report == spec_trapped_inst(htinst),
{
    let inst: u32 = htinst as u32;
    if inst == 0 {
        TrappedInst::Absent
    } else if inst == PSEUDO_INST_WALK_WRITE || inst == PSEUDO_INST_WALK_READ {
        TrappedInst::PageTableWalk { inst }
    } else {
        let width: usize = if inst & 0b10 == 0 {
            2
        } else {
            4
        };
        TrappedInst::Provided { inst: inst | 0b10, width }
    }
}

/// The step for an access to `addr` in `window`, where decoding gave
/// `decoded` for the instruction that made it: the emulation for an
/// instruction that was decoded, and a halt for one that was not.
pub open spec fn spec_dispatch_mmio(
    cpu: ArchCpu,
    window: PlicWindow,
    addr: usize,
    decoded: (usize, Option<u32>),
    width: usize,
) -> TrapStep {
    match decoded.1 {
        Some(inst) => TrapStep::Emulate { window, addr, inst, advance: width },
        None => TrapStep::Halt(HaltReason::InvalidInstruction { sepc: cpu.sepc }),
    }
}

/// Settles the step for an access to `addr` in `window` of the interrupt
/// controller, where decoding gave `decoded` for the instruction that made
/// it. `width` is the width of that instruction in guest memory.
pub fn dispatch_mmio(
    cpu: &ArchCpu,
    window: PlicWindow,
    addr: usize,
    decoded: (usize, Option<u32>),
    width: usize,
) -> (step: TrapStep)
    ensures
        step == spec_dispatch_mmio(*cpu, window, addr, decoded, width),
{
    match decoded.1 {
        Some(inst) => TrapStep::Emulate { window, addr, inst, advance: width },
        None => TrapStep::Halt(HaltReason::InvalidInstruction { sepc: cpu.sepc }),
    }
}

/// The step for a guest page fault on core `cpu`, where the hardware
/// reported `htval` and `htinst` and the interrupt controller lies at
/// `plic_base`.
///
/// The faulting address is `htval` shifted left by two bits. Outside the
/// controller it halts the core. Inside, the instruction is fetched where
/// the hardware reported none, and a reported instruction is decoded and the
/// access emulated. A pseudo-instruction says that the fault arose on a walk
/// of the guest's own page table: that fault is the guest's, and goes back
/// to it.
pub open spec fn spec_guest_page_fault(
    cpu: ArchCpu,
    htval: usize,
    htinst: usize,
    plic_base: usize,
) -> TrapStep {
    let addr = htval << 2;
    match spec_plic_window(plic_base, addr) {
        None => TrapStep::Halt(HaltReason::UnmappedAccess { cpuid: cpu.cpuid, addr }),
        Some(window) => match spec_trapped_inst(htinst) {
            TrappedInst::Absent => TrapStep::FetchInstruction {
                window,
                addr,
                pc: cpu.sepc,
                misaligned: cpu.sepc & 0b1 != 0,
            },
            TrappedInst::PageTableWalk { inst } => TrapStep::ReflectFault { addr, report: inst },
            TrappedInst::Provided { inst, width } => spec_dispatch_mmio(
                cpu,
                window,
                addr,
                spec_decoded(inst, spec_known(inst)),
                width,
            ),
        },
    }
}

/// A guest page fault ends in one of four ways. An access is emulated only
/// at the faulting address, in the window that holds it, by an instruction
/// that the hardware reported and that was decoded, and the guest then skips
/// two or four bytes. An instruction is fetched only at the guest's program
/// counter, where the hardware reported none. A fault on a walk of the
/// guest's own page table in the controller always goes back to the guest,
/// and is never emulated. Else the core halts: for an address outside the
/// controller, or for a reported instruction that could not be decoded.
pub proof fn lemma_guest_page_fault_outcomes(
    cpu: ArchCpu,
    htval: usize,
    htinst: usize,
    plic_base: usize,
)
    ensures
        match spec_guest_page_fault(cpu, htval, htinst, plic_base) {
            TrapStep::Emulate { window, addr, inst, advance } => {
                &&& addr == htval << 2
                &&& spec_plic_window(plic_base, addr) == Some(window)
                &&& spec_trapped_inst(htinst) is Provided
                &&& advance == 2 || advance == 4
            },
            TrapStep::ReflectFault { addr, report } => {
                &&& addr == htval << 2
                &&& spec_plic_window(plic_base, addr) is Some
                &&& spec_trapped_inst(htinst) == (TrappedInst::PageTableWalk { inst: report })
                &&& report == PSEUDO_INST_WALK_READ || report == PSEUDO_INST_WALK_WRITE
            },
            TrapStep::FetchInstruction { window, addr, pc, misaligned } => {
                &&& addr == htval << 2
                &&& spec_plic_window(plic_base, addr) == Some(window)
                &&& spec_trapped_inst(htinst) is Absent
                &&& pc == cpu.sepc
            },
            TrapStep::Halt(reason) => {
                ||| reason == (HaltReason::UnmappedAccess {
                    cpuid: cpu.cpuid,
                    addr: htval << 2,
                }) && spec_plic_window(plic_base, htval << 2) is None
                ||| reason == (HaltReason::InvalidInstruction { sepc: cpu.sepc })
                    && spec_plic_window(plic_base, htval << 2) is Some && spec_trapped_inst(
                    htinst,
                ) is Provided
            },
            _ => false,
        },
        spec_plic_window(plic_base, htval << 2) is Some && spec_trapped_inst(htinst)
            is PageTableWalk ==> spec_guest_page_fault(cpu, htval, htinst, plic_base)
            is ReflectFault,
{
}

/// Handles a guest page fault: counts it, and settles the next step.
pub fn guest_page_fault_handler(
    cpu: &ArchCpu,
    htval: usize,
    htinst: usize,
    plic_base: usize,
    stats: &mut VmExitInfo,
) -> (step: TrapStep)
    requires
        plic_base + PLIC_TOTAL_SIZE <= usize::MAX,
    ensures
        step == spec_guest_page_fault(*cpu, htval, htinst, plic_base),
        *final(stats) == (VmExitInfo {
            page_fault_exits: spec_counted(old(stats).page_fault_exits),
            ..*old(stats)
        }),
{
    stats.increment_page_fault();
    let addr: usize = htval << 2;
    match plic_window(plic_base, addr) {
        None => TrapStep::Halt(HaltReason::UnmappedAccess { cpuid: cpu.cpuid, addr }),
        Some(window) => match trapped_inst(htinst) {
            TrappedInst::Absent => TrapStep::FetchInstruction {
                window,
                addr,
                pc: cpu.sepc,
                misaligned: cpu.sepc & 0b1 != 0,
            },
            TrappedInst::PageTableWalk { inst } => TrapStep::ReflectFault { addr, report: inst },
            TrappedInst::Provided { inst, width } => {
                dispatch_mmio(cpu, window, addr, decode_inst(inst), width)
            },
        },
    }
}

/// The step for an access to `addr` in `window` by the instruction `inst`
/// that was fetched from guest memory: its low bits give its width.
pub open spec fn spec_guest_page_fault_fetched(
    cpu: ArchCpu,
    window: PlicWindow,
    addr: usize,
    inst: u32,
) -> TrapStep {
    spec_dispatch_mmio(
        cpu,
        window,
        addr,
        spec_decoded(inst, spec_known(inst)),
        spec_fetched_width(inst),
    )
}

/// Goes on with a guest page fault once the instruction that made the access
/// has been fetched from guest memory as `inst`.
pub fn guest_page_fault_fetched(cpu: &ArchCpu, window: PlicWindow, addr: usize, inst: u32) -> (step:
    TrapStep)
    ensures
        step == spec_guest_page_fault_fetched(*cpu, window, addr, inst),
{
    let width = fetched_width(inst);
    dispatch_mmio(cpu, window, addr, decode_inst(inst), width)
}

/// The step for the exception that `ctx` reports on core `cpu`.
pub open spec fn spec_sync_exception(cpu: ArchCpu, ctx: TrapContext, plic_base: usize) -> TrapStep {
    if ctx.hstatus & HSTATUS_SPV == 0 {
        TrapStep::Halt(HaltReason::NotFromGuest { scause: ctx.scause, hstatus: ctx.hstatus })
    } else {
        match spec_exception_type(ctx.scause) {
            ExceptionType::EcallVu => TrapStep::Halt(HaltReason::EcallFromUser),
            ExceptionType::EcallVs => TrapStep::Hypercall { advance: 4 },
            ExceptionType::LoadGuestPageFault | ExceptionType::StoreGuestPageFault =>
                spec_guest_page_fault(cpu, ctx.htval, ctx.htinst, plic_base),
            ExceptionType::Other => TrapStep::Halt(
                HaltReason::UnhandledException {
                    cpuid: cpu.cpuid,
                    scause: ctx.scause,
                    htval: ctx.htval,
                    htinst: ctx.htinst,
                    sepc: cpu.sepc,
                },
            ),
        }
    }
}

/// The counters after the exception that `ctx` reports: one more
/// environment call, or one more page fault and one more of its kind; for a
/// trap that halts the core at once, nothing.
pub open spec fn spec_sync_exception_counted(stats: VmExitInfo, ctx: TrapContext) -> VmExitInfo {
    if ctx.hstatus & HSTATUS_SPV == 0 {
        stats
    } else {
        match spec_exception_type(ctx.scause) {
            ExceptionType::EcallVs => VmExitInfo {
                ecall_exits: spec_counted(stats.ecall_exits),
                ..stats
            },
            ExceptionType::LoadGuestPageFault => VmExitInfo {
                load_page_fault: spec_counted(stats.load_page_fault),
                page_fault_exits: spec_counted(stats.page_fault_exits),
                ..stats
            },
            ExceptionType::StoreGuestPageFault => VmExitInfo {
                store_page_fault: spec_counted(stats.store_page_fault),
                page_fault_exits: spec_counted(stats.page_fault_exits),
                ..stats
            },
            _ => stats,
        }
    }
}

/// Handles an exception of the guest: checks that it came from the guest,
/// tells its cause, counts it, and settles the next step.
pub fn sync_exception_handler(
    cpu: &ArchCpu,
    ctx: &TrapContext,
    plic_base: usize,
    stats: &mut VmExitInfo,
) -> (step: TrapStep)
    requires
        plic_base + PLIC_TOTAL_SIZE <= usize::MAX,
    ensures
        step == spec_sync_exception(*cpu, *ctx, plic_base),
        *final(stats) == spec_sync_exception_counted(*old(stats), *ctx),
{
    if ctx.hstatus & HSTATUS_SPV == 0 {
        return TrapStep::Halt(
            HaltReason::NotFromGuest { scause: ctx.scause, hstatus: ctx.hstatus },
        );
    }
    match exception_type(ctx.scause) {
        ExceptionType::EcallVu => TrapStep::Halt(HaltReason::EcallFromUser),
        ExceptionType::EcallVs => {
            stats.increment_ecall();
            TrapStep::Hypercall { advance: 4 }
        },
        ExceptionType::LoadGuestPageFault => {
            stats.increment_load_page_fault();
            guest_page_fault_handler(cpu, ctx.htval, ctx.htinst, plic_base, stats)
        },
        ExceptionType::StoreGuestPageFault => {
            stats.increment_store_page_fault();
            guest_page_fault_handler(cpu, ctx.htval, ctx.htinst, plic_base, stats)
        },
        ExceptionType::Other => TrapStep::Halt(
            HaltReason::UnhandledException {
                cpuid: cpu.cpuid,
                scause: ctx.scause,
                htval: ctx.htval,
                htinst: ctx.htinst,
                sepc: cpu.sepc,
            },
        ),
    }
}

/// The causes alone select the branch of the dispatcher. And two traps from
/// the guest with the same cause and the same reported value and instruction
/// take the same step and count alike on cores in the same state, whatever
/// else the hardware reported.
pub proof fn lemma_step_depends_on_report(
    cpu: ArchCpu,
    stats: VmExitInfo,
    ctx1: TrapContext,
    ctx2: TrapContext,
    plic_base: usize,
)
    requires
        ctx1.scause == ctx2.scause,
    ensures
        spec_exception_type(ctx1.scause) == spec_exception_type(ctx2.scause),
        spec_interrupt_type(ctx1.scause) == spec_interrupt_type(ctx2.scause),
        spec_interrupt(cpu, ctx1.scause, plic_base) == spec_interrupt(cpu, ctx2.scause, plic_base),
        spec_interrupt_counted(stats, ctx1.scause) == spec_interrupt_counted(stats, ctx2.scause),
        ctx1.htval == ctx2.htval && ctx1.htinst == ctx2.htinst && ctx1.hstatus & HSTATUS_SPV != 0
            && ctx2.hstatus & HSTATUS_SPV != 0 ==> spec_sync_exception(cpu, ctx1, plic_base)
            == spec_sync_exception(cpu, ctx2, plic_base) && spec_sync_exception_counted(stats, ctx1)
            == spec_sync_exception_counted(stats, ctx2),
{
}

/// The context of core `cpuid` at the supervisor's level: the controller
/// numbers two contexts for each core, the machine's before the supervisor's.
pub open spec fn spec_context_id(cpuid: usize) -> int {
    2 * cpuid + 1
}

/// Address of the claim register of context `context_id` of the controller
/// at `plic_base`.
pub open spec fn spec_claim_addr(plic_base: usize, context_id: int) -> int {
    plic_base + PLIC_GLOBAL_SIZE + PLIC_CONTEXT_SIZE * context_id + PLIC_CLAIM_OFFSET
}

/// The step for a software interrupt: it is taken off the core and made
/// pending for the guest, and the events of other cores are looked at.
pub open spec fn spec_handle_ssi() -> TrapStep {
    TrapStep::SoftwareInterrupt { sip_clear: SIP_SSIP, hvip_set: HVIP_VSSIP }
}

/// The step for an external interrupt on core `cpu`: to claim it at the
/// core's context, if the core has one.
pub open spec fn spec_handle_eirq(cpu: ArchCpu, plic_base: usize) -> TrapStep {
    if spec_context_id(cpu.cpuid) < PLIC_MAX_CONTEXT {
        TrapStep::ClaimExternal {
            context_id: spec_context_id(cpu.cpuid) as usize,
            claim_addr: spec_claim_addr(plic_base, spec_context_id(cpu.cpuid)) as usize,
        }
    } else {
        TrapStep::Halt(HaltReason::NoContext { cpuid: cpu.cpuid })
    }
}

/// The step for the interrupt with the cause `scause` on core `cpu`.
pub open spec fn spec_interrupt(cpu: ArchCpu, scause: usize, plic_base: usize) -> TrapStep {
    match spec_interrupt_type(scause) {
        InterruptType::Sti => TrapStep::TimerInterrupt { hvip_set: HVIP_VSTIP, sie_clear: SIE_STIE },
        InterruptType::Ssi => spec_handle_ssi(),
        InterruptType::Sei => spec_handle_eirq(cpu, plic_base),
        InterruptType::Other => TrapStep::Halt(
            HaltReason::UnhandledInterrupt { scause, sepc: cpu.sepc },
        ),
    }
}

/// The counters after the interrupt with the cause `scause`: one more
/// interrupt, and one more of its kind.
pub open spec fn spec_interrupt_counted(stats: VmExitInfo, scause: usize) -> VmExitInfo {
    let counted = VmExitInfo { interrupt_exits: spec_counted(stats.interrupt_exits), ..stats };
    match spec_interrupt_type(scause) {
        InterruptType::Sti => VmExitInfo {
            timer_interrupt: spec_counted(stats.timer_interrupt),
            ..counted
        },
        InterruptType::Ssi => VmExitInfo {
            soft_interrupt: spec_counted(stats.soft_interrupt),
            ..counted
        },
        InterruptType::Sei => VmExitInfo {
            external_interrupt: spec_counted(stats.external_interrupt),
            ..counted
        },
        InterruptType::Other => counted,
    }
}

/// Handles a software interrupt, which another core sends to have this one
/// look at its events.
pub fn handle_ssi(cpu: &ArchCpu) -> (step: TrapStep)
    ensures
        step == spec_handle_ssi(),
{
    TrapStep::SoftwareInterrupt { sip_clear: SIP_SSIP, hvip_set: HVIP_VSSIP }
}

/// Handles an external interrupt: settles where the core claims it. Whether
/// the interrupt belongs to the guest is not decided here.
pub fn handle_eirq(cpu: &ArchCpu, plic: &Plic) -> (step: TrapStep)
    requires
        plic.wf(),
    ensures
        step == spec_handle_eirq(*cpu, plic.base),
{
    if cpu.cpuid < PLIC_MAX_CONTEXT / 2 {
        let context_id: usize = 2 * cpu.cpuid + 1;
        let claim_addr: usize = plic.base + PLIC_GLOBAL_SIZE + PLIC_CONTEXT_SIZE * context_id
            + PLIC_CLAIM_OFFSET;
        TrapStep::ClaimExternal { context_id, claim_addr }
    } else {
        TrapStep::Halt(HaltReason::NoContext { cpuid: cpu.cpuid })
    }
}

/// Goes on with an external interrupt once the context `context_id` has
/// claimed `irq`: keeps the claim for the time when the guest completes it,
/// and makes an external interrupt pending for the guest.
pub fn record_claim(plic: &mut Plic, context_id: usize, irq: u32) -> (step: TrapStep)
    requires
        context_id < PLIC_MAX_CONTEXT,
    ensures
        step == (TrapStep::ExternalInterrupt { hvip_set: HVIP_VSEIP }),
        final(plic).base == old(plic).base,
        final(plic).claim_complete@ == old(plic).claim_complete@.update(context_id as int, irq),
{
    plic.claim_complete[context_id] = irq;
    TrapStep::ExternalInterrupt { hvip_set: HVIP_VSEIP }
}

/// Handles an interrupt: tells its cause, counts it, and settles the next
/// step.
pub fn interrupts_arch_handle(cpu: &ArchCpu, scause: usize, plic: &Plic, stats: &mut VmExitInfo) -> (step:
    TrapStep)
    requires
        plic.wf(),
    ensures
        step == spec_interrupt(*cpu, scause, plic.base),
        *final(stats) == spec_interrupt_counted(*old(stats), scause),
{
    stats.increment_interrupt();
    match interrupt_type(scause) {
        InterruptType::Sti => {
            stats.increment_timer_interrupt();
            // The timer stays off until the guest sets it anew.
            TrapStep::TimerInterrupt { hvip_set: HVIP_VSTIP, sie_clear: SIE_STIE }
        },
        InterruptType::Ssi => {
            stats.increment_soft_interrupt();
            handle_ssi(cpu)
        },
        InterruptType::Sei => {
            stats.increment_external_interrupt();
            handle_eirq(cpu, plic)
        },
        InterruptType::Other => TrapStep::Halt(
            HaltReason::UnhandledInterrupt { scause, sepc: cpu.sepc },
        ),
    }
}

} // verus!
