use kafer_core::breakpoints::BreakpointManager;
use kafer_core::context::ThreadContext;

fn ids_and_addresses(manager: &BreakpointManager) -> Vec<(usize, u64)> {
    manager.list_breakpoints().iter().map(|bp| (bp.id(), bp.addr)).collect()
}

#[test]
fn new_manager_lists_nothing() {
    let manager = BreakpointManager::new();
    assert_eq!(ids_and_addresses(&manager), vec![]);
}

#[test]
fn fifth_breakpoint_has_no_slot() {
    let mut manager = BreakpointManager::new();
    assert_eq!(manager.add_breakpoint(0x1000), Some(0));
    assert_eq!(manager.add_breakpoint(0x2000), Some(1));
    assert_eq!(manager.add_breakpoint(0x3000), Some(2));
    assert_eq!(manager.add_breakpoint(0x4000), Some(3));
    assert_eq!(manager.add_breakpoint(0x5000), None);
    assert_eq!(
        ids_and_addresses(&manager),
        vec![(0, 0x1000), (1, 0x2000), (2, 0x3000), (3, 0x4000)]
    );
}

#[test]
fn listing_shows_exactly_the_populated_slots() {
    let mut manager = BreakpointManager::new();
    manager.add_breakpoint(0xaaaa);
    manager.add_breakpoint(0xbbbb);
    manager.add_breakpoint(0xcccc);
    manager.clear_breakpoint(1);
    assert_eq!(ids_and_addresses(&manager), vec![(0, 0xaaaa), (2, 0xcccc)]);
}

#[test]
fn clearing_keeps_the_other_identifiers() {
    let mut manager = BreakpointManager::new();
    manager.add_breakpoint(0x10);
    manager.add_breakpoint(0x20);
    manager.add_breakpoint(0x30);
    manager.clear_breakpoint(0);
    assert_eq!(ids_and_addresses(&manager), vec![(1, 0x20), (2, 0x30)]);
    // The lowest empty slot is taken next.
    assert_eq!(manager.add_breakpoint(0x40), Some(0));
    assert_eq!(ids_and_addresses(&manager), vec![(0, 0x40), (1, 0x20), (2, 0x30)]);
}

#[test]
fn add_then_clear_restores_the_listing() {
    let mut manager = BreakpointManager::new();
    manager.add_breakpoint(0x111);
    manager.add_breakpoint(0x222);
    manager.clear_breakpoint(0);
    let before = ids_and_addresses(&manager);
    let id = manager.add_breakpoint(0x999).unwrap();
    assert_eq!(id, 0);
    manager.clear_breakpoint(id);
    assert_eq!(ids_and_addresses(&manager), before);
}

#[test]
fn clearing_an_identifier_without_slot_changes_nothing() {
    let mut manager = BreakpointManager::new();
    manager.add_breakpoint(0x111);
    manager.clear_breakpoint(4);
    manager.clear_breakpoint(usize::MAX);
    assert_eq!(ids_and_addresses(&manager), vec![(0, 0x111)]);
}

#[test]
fn status_bits_name_the_slot() {
    let manager = BreakpointManager::new();
    let mut ctx = ThreadContext::zeroed();
    assert_eq!(manager.was_breakpoint_hit(&ctx), None);
    ctx.dr6 = 1;
    assert_eq!(manager.was_breakpoint_hit(&ctx), Some(0));
    ctx.dr6 = 2;
    assert_eq!(manager.was_breakpoint_hit(&ctx), Some(1));
    ctx.dr6 = 4;
    assert_eq!(manager.was_breakpoint_hit(&ctx), Some(2));
    ctx.dr6 = 8;
    assert_eq!(manager.was_breakpoint_hit(&ctx), Some(3));
}

#[test]
fn status_bits_above_the_low_four_name_no_slot() {
    let manager = BreakpointManager::new();
    let mut ctx = ThreadContext::zeroed();
    // Bit 14 reports a single step, bit 4 is reserved.
    ctx.dr6 = 0x4010;
    assert_eq!(manager.was_breakpoint_hit(&ctx), None);
    ctx.dr6 = 0xffff_0ff0;
    assert_eq!(manager.was_breakpoint_hit(&ctx), None);
}

#[test]
fn lowest_status_bit_wins() {
    let manager = BreakpointManager::new();
    let mut ctx = ThreadContext::zeroed();
    ctx.dr6 = 0b1010;
    assert_eq!(manager.was_breakpoint_hit(&ctx), Some(1));
    ctx.dr6 = 0b1100;
    assert_eq!(manager.was_breakpoint_hit(&ctx), Some(2));
}

#[test]
fn apply_writes_addresses_and_enable_bits() {
    let mut manager = BreakpointManager::new();
    manager.add_breakpoint(0x1111);
    manager.add_breakpoint(0x2222);
    manager.add_breakpoint(0x3333);
    manager.clear_breakpoint(1);
    let mut ctx = ThreadContext::zeroed();
    ctx.dr1 = 0x7777;
    ctx.dr3 = 0x8888;
    // Every enable bit and every condition bit is set beforehand.
    ctx.dr7 = 0xffff_00ff;
    ctx.eflags = 0x202;
    let updated = manager.apply_breakpoints(ctx, 7, 9);
    assert_eq!(updated.dr0, 0x1111);
    assert_eq!(updated.dr1, 0x7777);
    assert_eq!(updated.dr2, 0x3333);
    assert_eq!(updated.dr3, 0x8888);
    // Slots 0 and 2 are populated: their condition bits are cleared and their
    // local-enable bits stay set. Slots 1 and 3 lose their local-enable bits.
    assert_eq!(updated.dr7, 0xf0f0_00bb);
    assert_eq!(updated.eflags, 0x202);
    assert_eq!(updated.rip, ctx.rip);
}

#[test]
fn apply_sets_enable_bits_from_scratch() {
    let mut manager = BreakpointManager::new();
    manager.add_breakpoint(0xa);
    manager.add_breakpoint(0xb);
    manager.add_breakpoint(0xc);
    manager.add_breakpoint(0xd);
    let updated = manager.apply_breakpoints(ThreadContext::zeroed(), 1, 2);
    assert_eq!(updated.dr7, 0b0101_0101);
    assert_eq!((updated.dr0, updated.dr1, updated.dr2, updated.dr3), (0xa, 0xb, 0xc, 0xd));
}

#[test]
fn apply_sets_the_resume_flag_of_the_resuming_thread_only() {
    let manager = BreakpointManager::new();
    let mut ctx = ThreadContext::zeroed();
    ctx.eflags = 0x246;
    assert_eq!(manager.apply_breakpoints(ctx, 5, 5).eflags, 0x1_0246);
    assert_eq!(manager.apply_breakpoints(ctx, 6, 5).eflags, 0x246);
}

#[test]
fn apply_twice_is_apply_once() {
    let mut manager = BreakpointManager::new();
    manager.add_breakpoint(0x1234);
    manager.add_breakpoint(0x5678);
    manager.clear_breakpoint(0);
    let mut ctx = ThreadContext::zeroed();
    ctx.dr7 = 0x1234_5678_9abc_def0;
    ctx.dr0 = 0x42;
    let once = manager.apply_breakpoints(ctx, 3, 3);
    let twice = manager.apply_breakpoints(once, 3, 3);
    assert_eq!(once, twice);
}
