use hvisor::vmexitinfo::{
    clear_global_summary, increment_ecall_global, increment_external_interrupt_global,
    increment_hsm_ecall_global, increment_hvisor_ecall_global, increment_interrupt_global,
    increment_load_page_fault_global, increment_page_fault_global,
    increment_soft_interrupt_global, increment_store_page_fault_global,
    increment_timer_ecall_global, increment_timer_interrupt_global, new_global,
    print_global_summary, VmExitInfo,
};

fn counts(info: &VmExitInfo) -> [u64; 11] {
    [
        info.interrupt_exits,
        info.timer_interrupt,
        info.soft_interrupt,
        info.external_interrupt,
        info.ecall_exits,
        info.hsm_ecall,
        info.hvisor_ecall,
        info.timer_ecall,
        info.page_fault_exits,
        info.load_page_fault,
        info.store_page_fault,
    ]
}

fn one_hot(index: usize, base: u64) -> [u64; 11] {
    let mut expected = [base; 11];
    expected[index] = base + 1;
    expected
}

#[test]
fn new_counts_nothing() {
    assert_eq!(counts(&VmExitInfo::new()), [0; 11]);
}

#[test]
fn each_increment_counts_one_and_leaves_the_rest() {
    let steps: [fn(&mut VmExitInfo); 11] = [
        VmExitInfo::increment_interrupt,
        VmExitInfo::increment_timer_interrupt,
        VmExitInfo::increment_soft_interrupt,
        VmExitInfo::increment_external_interrupt,
        VmExitInfo::increment_ecall,
        VmExitInfo::increment_hsm_ecall,
        VmExitInfo::increment_hvisor_ecall,
        VmExitInfo::increment_timer_ecall,
        VmExitInfo::increment_page_fault,
        VmExitInfo::increment_load_page_fault,
        VmExitInfo::increment_store_page_fault,
    ];
    for (index, step) in steps.iter().enumerate() {
        let mut info = VmExitInfo::new();
        step(&mut info);
        assert_eq!(counts(&info), one_hot(index, 0));
        let mut info = VmExitInfo {
            interrupt_exits: 7,
            timer_interrupt: 7,
            soft_interrupt: 7,
            external_interrupt: 7,
            ecall_exits: 7,
            hsm_ecall: 7,
            hvisor_ecall: 7,
            timer_ecall: 7,
            page_fault_exits: 7,
            load_page_fault: 7,
            store_page_fault: 7,
        };
        step(&mut info);
        assert_eq!(counts(&info), one_hot(index, 7));
    }
}

#[test]
fn counter_stays_at_highest_value() {
    let mut info = VmExitInfo::new();
    info.ecall_exits = u64::MAX - 1;
    info.increment_ecall();
    assert_eq!(info.ecall_exits, u64::MAX);
    info.increment_ecall();
    assert_eq!(info.ecall_exits, u64::MAX);
    assert_eq!(info.interrupt_exits, 0);
}

#[test]
fn clear_resets_all() {
    let mut info = VmExitInfo::new();
    info.increment_interrupt();
    info.increment_ecall();
    info.increment_ecall();
    info.increment_store_page_fault();
    info.clear();
    assert_eq!(info, VmExitInfo::new());
}

#[test]
fn summary_lists_every_counter() {
    let info = VmExitInfo {
        interrupt_exits: 1,
        timer_interrupt: 2,
        soft_interrupt: 3,
        external_interrupt: 4,
        ecall_exits: 5,
        hsm_ecall: 6,
        hvisor_ecall: 7,
        timer_ecall: 8,
        page_fault_exits: 9,
        load_page_fault: 10,
        store_page_fault: 11,
    };
    assert_eq!(
        info.summary(),
        vec![
            ("  Interrupt exits", 1),
            ("    Timer interrupt", 2),
            ("    Soft interrupt", 3),
            ("    External interrupt", 4),
            ("  ECALL exits", 5),
            ("    HSM ECALL", 6),
            ("    HVISOR ECALL", 7),
            ("    Timer ECALL", 8),
            ("  Page fault exits", 9),
            ("    Load page fault", 10),
            ("    Store page fault", 11),
        ]
    );
}

#[test]
fn shared_counters_start_at_zero() {
    let shared = new_global();
    let (rows, result) = print_global_summary(&shared);
    assert_eq!(result, Ok(0));
    assert_eq!(rows.len(), 11);
    assert!(rows.iter().all(|row| row.1 == 0));
    assert_eq!(rows[0].0, "  Interrupt exits");
}

#[test]
fn shared_increments_reach_the_counters() {
    let shared = new_global();
    increment_interrupt_global(&shared);
    increment_timer_interrupt_global(&shared);
    increment_timer_interrupt_global(&shared);
    increment_soft_interrupt_global(&shared);
    increment_soft_interrupt_global(&shared);
    increment_soft_interrupt_global(&shared);
    for _ in 0..4 {
        increment_external_interrupt_global(&shared);
    }
    for _ in 0..5 {
        increment_ecall_global(&shared);
    }
    for _ in 0..6 {
        increment_hsm_ecall_global(&shared);
    }
    for _ in 0..7 {
        increment_hvisor_ecall_global(&shared);
    }
    for _ in 0..8 {
        increment_timer_ecall_global(&shared);
    }
    for _ in 0..9 {
        increment_page_fault_global(&shared);
    }
    for _ in 0..10 {
        increment_load_page_fault_global(&shared);
    }
    for _ in 0..11 {
        increment_store_page_fault_global(&shared);
    }
    let (rows, result) = print_global_summary(&shared);
    assert_eq!(result, Ok(0));
    let values: Vec<u64> = rows.iter().map(|row| row.1).collect();
    assert_eq!(values, vec![1, 2, 3, 4, 5, 6, 7, 8, 9, 10, 11]);
    assert_eq!(*shared.lock(), VmExitInfo {
        interrupt_exits: 1,
        timer_interrupt: 2,
        soft_interrupt: 3,
        external_interrupt: 4,
        ecall_exits: 5,
        hsm_ecall: 6,
        hvisor_ecall: 7,
        timer_ecall: 8,
        page_fault_exits: 9,
        load_page_fault: 10,
        store_page_fault: 11,
    });
}

#[test]
fn shared_lock_is_free_after_each_call() {
    let shared = new_global();
    increment_ecall_global(&shared);
    assert!(!shared.is_locked());
    let _ = print_global_summary(&shared);
    assert!(!shared.is_locked());
    let _ = clear_global_summary(&shared);
    assert!(!shared.is_locked());
}

#[test]
fn shared_clear_resets_all() {
    let shared = new_global();
    increment_ecall_global(&shared);
    increment_page_fault_global(&shared);
    assert_eq!(clear_global_summary(&shared), Ok(0));
    assert_eq!(*shared.lock(), VmExitInfo::new());
}
