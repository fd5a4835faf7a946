//! Counters of guest exits, by cause, and the handle through which the cores
//! share one set of them.

use crate::error::HvResult;
use vstd::prelude::*;

verus! {

/// Result of a hypercall: the value handed back to the guest.
pub type HyperCallResult = HvResult<usize>;

/// How often the guest was left, by cause.
#[derive(Clone, Copy, Debug, PartialEq, Eq, Structural)]
pub struct VmExitInfo {
    /// Exits caused by interrupts.
    pub interrupt_exits: u64,
    /// Of those, timer interrupts.
    pub timer_interrupt: u64,
    /// Of those, software interrupts.
    pub soft_interrupt: u64,
    /// Of those, external interrupts.
    pub external_interrupt: u64,
    /// Exits caused by environment calls.
    pub ecall_exits: u64,
    /// Of those, calls that manage the state of a hart.
    pub hsm_ecall: u64,
    /// Of those, calls to the hypervisor itself.
    pub hvisor_ecall: u64,
    /// Of those, calls that set the timer.
    pub timer_ecall: u64,
    /// Exits caused by guest page faults.
    pub page_fault_exits: u64,
    /// Of those, faults on a load.
    pub load_page_fault: u64,
    /// Of those, faults on a store.
    pub store_page_fault: u64,
}

/// A counter after one more event: one higher, unless it stands at the
/// highest value already, where it stays.
pub open spec fn spec_counted(count: u64) -> u64 {
    if count < u64::MAX {
        (count + 1) as u64
    } else {
        count
    }
}

/// One line of the summary: its label, indented as it is shown, and the count.
pub type SummaryRow = (&'static str, u64);

/// The lines of the summary of `info`, from top to bottom.
pub open spec fn spec_summary(info: VmExitInfo) -> Seq<(Seq<char>, u64)> {
    seq![
        ("  Interrupt exits"@, info.interrupt_exits),
        ("    Timer interrupt"@, info.timer_interrupt),
        ("    Soft interrupt"@, info.soft_interrupt),
        ("    External interrupt"@, info.external_interrupt),
        ("  ECALL exits"@, info.ecall_exits),
        ("    HSM ECALL"@, info.hsm_ecall),
        ("    HVISOR ECALL"@, info.hvisor_ecall),
        ("    Timer ECALL"@, info.timer_ecall),
        ("  Page fault exits"@, info.page_fault_exits),
        ("    Load page fault"@, info.load_page_fault),
        ("    Store page fault"@, info.store_page_fault),
    ]
}

impl VmExitInfo {
    /// All counters at zero.
    pub open spec fn spec_new() -> VmExitInfo {
        VmExitInfo {
            interrupt_exits: 0,
            timer_interrupt: 0,
            soft_interrupt: 0,
            external_interrupt: 0,
            ecall_exits: 0,
            hsm_ecall: 0,
            hvisor_ecall: 0,
            timer_ecall: 0,
            page_fault_exits: 0,
            load_page_fault: 0,
            store_page_fault: 0,
        }
    }

    /// Counters that have counted nothing yet.
    #[verifier::when_used_as_spec(spec_new)]
    pub fn new() -> (info: Self)
        ensures
            info == Self::spec_new(),
    {
        VmExitInfo {
            interrupt_exits: 0,
            timer_interrupt: 0,
            soft_interrupt: 0,
            external_interrupt: 0,
            ecall_exits: 0,
            hsm_ecall: 0,
            hvisor_ecall: 0,
            timer_ecall: 0,
            page_fault_exits: 0,
            load_page_fault: 0,
            store_page_fault: 0,
        }
    }

    /// Counts one exit caused by an interrupt.
    pub fn increment_interrupt(&mut self)
        ensures
            *final(self) == (VmExitInfo {
                interrupt_exits: spec_counted(old(self).interrupt_exits),
                ..*old(self)
            }),
    {
        self.interrupt_exits = self.interrupt_exits.saturating_add(1);
    }

    /// Counts one timer interrupt.
    pub fn increment_timer_interrupt(&mut self)
        ensures
            *final(self) == (VmExitInfo {
                timer_interrupt: spec_counted(old(self).timer_interrupt),
                ..*old(self)
            }),
    {
        self.timer_interrupt = self.timer_interrupt.saturating_add(1);
    }

    /// Counts one software interrupt.
    pub fn increment_soft_interrupt(&mut self)
        ensures
            *final(self) == (VmExitInfo {
                soft_interrupt: spec_counted(old(self).soft_interrupt),
                ..*old(self)
            }),
    {
        self.soft_interrupt = self.soft_interrupt.saturating_add(1);
    }

    /// Counts one external interrupt.
    pub fn increment_external_interrupt(&mut self)
        ensures
            *final(self) == (VmExitInfo {
                external_interrupt: spec_counted(old(self).external_interrupt),
                ..*old(self)
            }),
    {
        self.external_interrupt = self.external_interrupt.saturating_add(1);
    }

    /// Counts one exit caused by an environment call.
    pub fn increment_ecall(&mut self)
        ensures
            *final(self) == (VmExitInfo {
                ecall_exits: spec_counted(old(self).ecall_exits),
                ..*old(self)
            }),
    {
        self.ecall_exits = self.ecall_exits.saturating_add(1);
    }

    /// Counts one call that manages the state of a hart.
    pub fn increment_hsm_ecall(&mut self)
        ensures
            *final(self) == (VmExitInfo {
                hsm_ecall: spec_counted(old(self).hsm_ecall),
                ..*old(self)
            }),
    {
        self.hsm_ecall = self.hsm_ecall.saturating_add(1);
    }

    /// Counts one call to the hypervisor itself.
    pub fn increment_hvisor_ecall(&mut self)
        ensures
            *final(self) == (VmExitInfo {
                hvisor_ecall: spec_counted(old(self).hvisor_ecall),
                ..*old(self)
            }),
    {
        self.hvisor_ecall = self.hvisor_ecall.saturating_add(1);
    }

    /// Counts one call that sets the timer.
    pub fn increment_timer_ecall(&mut self)
        ensures
            *final(self) == (VmExitInfo {
                timer_ecall: spec_counted(old(self).timer_ecall),
                ..*old(self)
            }),
    {
        self.timer_ecall = self.timer_ecall.saturating_add(1);
    }

    /// Counts one exit caused by a guest page fault.
    pub fn increment_page_fault(&mut self)
        ensures
            *final(self) == (VmExitInfo {
                page_fault_exits: spec_counted(old(self).page_fault_exits),
                ..*old(self)
            }),
    {
        self.page_fault_exits = self.page_fault_exits.saturating_add(1);
    }

    /// Counts one guest page fault on a load.
    pub fn increment_load_page_fault(&mut self)
        ensures
            *final(self) == (VmExitInfo {
                load_page_fault: spec_counted(old(self).load_page_fault),
                ..*old(self)
            }),
    {
        self.load_page_fault = self.load_page_fault.saturating_add(1);
    }

    /// Counts one guest page fault on a store.
    pub fn increment_store_page_fault(&mut self)
        ensures
            *final(self) == (VmExitInfo {
                store_page_fault: spec_counted(old(self).store_page_fault),
                ..*old(self)
            }),
    {
        self.store_page_fault = self.store_page_fault.saturating_add(1);
    }

    /// Sets every counter back to zero.
    pub fn clear(&mut self)
        ensures
            *final(self) == Self::spec_new(),
    {
        self.interrupt_exits = 0;
        self.timer_interrupt = 0;
        self.soft_interrupt = 0;
        self.external_interrupt = 0;
        self.ecall_exits = 0;
        self.hsm_ecall = 0;
        self.hvisor_ecall = 0;
        self.timer_ecall = 0;
        self.page_fault_exits = 0;
        self.load_page_fault = 0;
        self.store_page_fault = 0;
    }

    /// The lines of the summary, from top to bottom: each total, followed by
    /// the counts it is made of.
    pub fn summary(&self) -> (rows: Vec<SummaryRow>)
        ensures
            spec_is_summary_of(rows@, *self),
    {
        let mut rows: Vec<SummaryRow> = Vec::new();
        rows.push(("  Interrupt exits", self.interrupt_exits));
        rows.push(("    Timer interrupt", self.timer_interrupt));
        rows.push(("    Soft interrupt", self.soft_interrupt));
        rows.push(("    External interrupt", self.external_interrupt));
        rows.push(("  ECALL exits", self.ecall_exits));
        rows.push(("    HSM ECALL", self.hsm_ecall));
        rows.push(("    HVISOR ECALL", self.hvisor_ecall));
        rows.push(("    Timer ECALL", self.timer_ecall));
        rows.push(("  Page fault exits", self.page_fault_exits));
        rows.push(("    Load page fault", self.load_page_fault));
        rows.push(("    Store page fault", self.store_page_fault));
        rows
    }
}

/// The lock of `spin` around a value. Verus sees nothing inside it.
#[verifier::external_type_specification]
#[verifier::external_body]
#[verifier::reject_recursive_types(T)]
#[verifier::reject_recursive_types(R)]
pub struct ExMutex<T: ?Sized, R>(spin::mutex::Mutex<T, R>);

/// The way a `spin` lock waits: by spinning.
#[verifier::external_type_specification]
#[verifier::external_body]
pub struct ExSpin(spin::relax::Spin);

/// The right to use what a `spin` lock guards, for as long as it lives.
#[verifier::external_type_specification]
#[verifier::external_body]
#[verifier::reject_recursive_types(T)]
pub struct ExMutexGuard<'a, T: 'a + ?Sized>(spin::mutex::MutexGuard<'a, T>);

/// One set of counters for all cores, behind a lock.
pub type SharedVmExitInfo = spin::mutex::Mutex<VmExitInfo>;

/// Waits for the lock and takes it.
///
/// Trusted: calls `spin::mutex::Mutex::lock`, which spins until the lock is
/// free and returns the guard. Nothing is known of the counters behind it:
/// other cores have changed them at will. The call does not return while
/// the lock is held, so a core that holds the guard must not call it again.
#[verifier::external_body]
fn lock_counters<'a>(shared: &'a SharedVmExitInfo) -> (guard: spin::mutex::MutexGuard<
    'a,
    VmExitInfo,
>) {
    shared.lock()
}

/// The counters that the guard gives access to.
///
/// Trusted: calls `DerefMut::deref_mut` of `spin::mutex::MutexGuard`, which
/// hands out the guarded value itself.
#[verifier::external_body]
fn guarded_counters<'a, 'b>(guard: &'b mut spin::mutex::MutexGuard<'a, VmExitInfo>) -> (info: &'b mut VmExitInfo) {
    &mut **guard
}

/// The counters that a lock was made with. This is settled when the lock is
/// made and never changes; what the lock holds at a later time is another
/// matter, of which nothing is known here, as every core counts.
pub uninterp spec fn spec_made_with(shared: spin::mutex::Mutex<VmExitInfo>) -> VmExitInfo;

/// Puts counters behind a lock.
///
/// Trusted: calls `spin::mutex::Mutex::new`, which wraps the value it is
/// given: the lock is made with `info`, and is free.
#[verifier::external_body]
fn share_counters(info: VmExitInfo) -> (shared: SharedVmExitInfo)
    ensures
        spec_made_with(shared) == info,
{
    spin::mutex::Mutex::new(info)
}

/// Counters for all cores to share, which have counted nothing yet: the lock
/// is made with every counter at zero.
pub fn new_global() -> (shared: SharedVmExitInfo)
    ensures
        spec_made_with(shared) == VmExitInfo::spec_new(),
{
    share_counters(VmExitInfo::new())
}

/// Counts one exit caused by an interrupt in the shared counters, under their lock.
pub fn increment_interrupt_global(shared: &SharedVmExitInfo) {
    let mut guard = lock_counters(shared);
    let info = guarded_counters(&mut guard);
    info.increment_interrupt();
}

/// Counts one timer interrupt in the shared counters, under their lock.
pub fn increment_timer_interrupt_global(shared: &SharedVmExitInfo) {
    let mut guard = lock_counters(shared);
    let info = guarded_counters(&mut guard);
    info.increment_timer_interrupt();
}

/// Counts one software interrupt in the shared counters, under their lock.
pub fn increment_soft_interrupt_global(shared: &SharedVmExitInfo) {
    let mut guard = lock_counters(shared);
    let info = guarded_counters(&mut guard);
    info.increment_soft_interrupt();
}

/// Counts one external interrupt in the shared counters, under their lock.
pub fn increment_external_interrupt_global(shared: &SharedVmExitInfo) {
    let mut guard = lock_counters(shared);
    let info = guarded_counters(&mut guard);
    info.increment_external_interrupt();
}

/// Counts one exit caused by an environment call in the shared counters, under their lock.
pub fn increment_ecall_global(shared: &SharedVmExitInfo) {
    let mut guard = lock_counters(shared);
    let info = guarded_counters(&mut guard);
    info.increment_ecall();
}

/// Counts one call that manages the state of a hart in the shared counters, under their lock.
pub fn increment_hsm_ecall_global(shared: &SharedVmExitInfo) {
    let mut guard = lock_counters(shared);
    let info = guarded_counters(&mut guard);
    info.increment_hsm_ecall();
}

/// Counts one call to the hypervisor itself in the shared counters, under their lock.
pub fn increment_hvisor_ecall_global(shared: &SharedVmExitInfo) {
    let mut guard = lock_counters(shared);
    let info = guarded_counters(&mut guard);
    info.increment_hvisor_ecall();
}

/// Counts one call that sets the timer in the shared counters, under their lock.
pub fn increment_timer_ecall_global(shared: &SharedVmExitInfo) {
    let mut guard = lock_counters(shared);
    let info = guarded_counters(&mut guard);
    info.increment_timer_ecall();
}

/// Counts one exit caused by a guest page fault in the shared counters, under their lock.
pub fn increment_page_fault_global(shared: &SharedVmExitInfo) {
    let mut guard = lock_counters(shared);
    let info = guarded_counters(&mut guard);
    info.increment_page_fault();
}

/// Counts one guest page fault on a load in the shared counters, under their lock.
pub fn increment_load_page_fault_global(shared: &SharedVmExitInfo) {
    let mut guard = lock_counters(shared);
    let info = guarded_counters(&mut guard);
    info.increment_load_page_fault();
}

/// Counts one guest page fault on a store in the shared counters, under their lock.
pub fn increment_store_page_fault_global(shared: &SharedVmExitInfo) {
    let mut guard = lock_counters(shared);
    let info = guarded_counters(&mut guard);
    info.increment_store_page_fault();
}

/// `rows` are the lines of the summary of `info`.
pub open spec fn spec_is_summary_of(rows: Seq<SummaryRow>, info: VmExitInfo) -> bool {
    &&& rows.len() == spec_summary(info).len()
    &&& forall|i: int|
        0 <= i < rows.len() ==> (#[trigger] rows[i]).0@ == spec_summary(info)[i].0 && rows[i].1
            == spec_summary(info)[i].1
}

/// Reads the shared counters under their lock and hands back the lines of
/// their summary, for the caller to show, with the result of the hypercall
/// that asked for them: success, with the value 0.
pub fn print_global_summary(shared: &SharedVmExitInfo) -> (shown: (Vec<SummaryRow>, HyperCallResult))
    ensures
        exists|info: VmExitInfo| spec_is_summary_of(shown.0@, info),
        shown.1 == HyperCallResult::Ok(0),
{
    let mut guard = lock_counters(shared);
    let info = guarded_counters(&mut guard);
    let snapshot: VmExitInfo = *info;
    let rows = snapshot.summary();
    let shown = (rows, Ok(0));
    assert(spec_is_summary_of(shown.0@, snapshot));
    shown
}

/// Sets the shared counters back to zero under their lock, so that no count
/// of another core falls between two of the resets. The result is that of the
/// hypercall that asked for it: success, with the value 0.
pub fn clear_global_summary(shared: &SharedVmExitInfo) -> (result: HyperCallResult)
    ensures
        result == HyperCallResult::Ok(0),
{
    let mut guard = lock_counters(shared);
    let info = guarded_counters(&mut guard);
    info.clear();
    Ok(0)
}

} // verus!
