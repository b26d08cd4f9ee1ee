use taskctx::arch::{
    align_down, align_up_4k, disable_irqs, disable_sum, dup_kernel_pg_dir, enable_irqs, enable_sum,
    flush_tlb, halt, irqs_enabled, is_aligned_4k, read_page_table_root, read_thread_pointer,
    reuse_page_table_root, set_trap_vector_base, setup_page_table_root, write_page_table_root,
    write_thread_pointer, Hart, PageTable, TaskContext,
};
use taskctx::current::{current_ctx, init_current, try_current_ctx, CurrentCtx, TaskTable};
use taskctx::syscall::{
    copy_from_user, decode_syscall, finish_syscall, get_user_str, handle_syscall, init_bytes_from_str,
    linux_syscall_close, linux_syscall_exit_group, linux_syscall_uname, GeneralRegisters, Syscall,
    TrapFrame, UserMemory, UTS_FIELD_LEN,
};
use taskctx::task::{switch_mm, SchedInfo, StackArena, TaskStack, STACK_ALIGN, THREAD_SIZE};

fn arena() -> StackArena {
    StackArena::new(0x8000_0000, 0x8100_0000)
}

#[test]
fn new_block_has_tgid_equal_to_pid() {
    let info = SchedInfo::new(42);
    assert_eq!(info.pid(), 42);
    assert_eq!(info.tgid(), 42);
    assert!(info.try_pgd().is_none());
    assert_eq!(info.mm_id(), 0);
    assert_eq!(info.active_mm_id(), 0);
    assert_eq!(info.stack_top(), None);
    assert_eq!(info.thread(), TaskContext::new());
}

#[test]
fn switch_mm_same_id_is_a_no_op() {
    let mut hart = Hart::new();
    write_page_table_root(&mut hart, 0x1000);
    let flushes = hart.tlb_flush_count();
    switch_mm(&mut hart, 7, 7, &PageTable::new(0x9000));
    assert_eq!(read_page_table_root(&hart), 0x1000);
    assert_eq!(hart.tlb_flush_count(), flushes);
}

#[test]
fn switch_mm_different_id_loads_root() {
    let mut hart = Hart::new();
    write_page_table_root(&mut hart, 0x1000);
    switch_mm(&mut hart, 1, 2, &PageTable::new(0x9000));
    assert_eq!(read_page_table_root(&hart), 0x9000);
    assert_eq!(hart.tlb_flush_count(), 2);
}

#[test]
fn write_same_root_does_not_flush() {
    let mut hart = Hart::new();
    write_page_table_root(&mut hart, 0x5000);
    assert_eq!(hart.tlb_flush_count(), 1);
    write_page_table_root(&mut hart, 0x5000);
    assert_eq!(hart.tlb_flush_count(), 1);
    flush_tlb(&mut hart, Some(0x4000));
    assert_eq!(hart.tlb_flush_count(), 1);
    assert_eq!(hart.page_flush_count(), 1);
    assert_eq!(hart.last_page_flush(), Some(0x4000));
    flush_tlb(&mut hart, None);
    assert_eq!(hart.tlb_flush_count(), 2);
    assert_eq!(hart.page_flush_count(), 1);
    assert_eq!(read_page_table_root(&hart), 0x5000);
}

#[test]
fn arena_reuses_released_stacks() {
    let mut stacks = StackArena::new(0x1000, 0x10_0000);
    let s1 = TaskStack::allocate(&mut stacks, 4096);
    let s2 = TaskStack::allocate(&mut stacks, 4096);
    assert_eq!(s2.top(), 0x3000);
    assert_eq!(stacks.available(), 0x10_0000 - 0x3000);
    assert!(stacks.release(s1));
    let s3 = TaskStack::allocate(&mut stacks, 4096);
    assert_eq!(s3.top(), 0x2000);
    assert_eq!(stacks.available(), 0x10_0000 - 0x3000);
    let s4 = TaskStack::allocate(&mut stacks, 4096);
    assert_eq!(s4.top(), 0x4000);
    assert!(stacks.release(s2));
    let s5 = TaskStack::allocate(&mut stacks, 100);
    assert_eq!(s5.top(), 0x4000 + 100);
    let s6 = TaskStack::allocate(&mut stacks, 4096);
    assert_eq!(s6.top(), 0x3000);
    assert!(stacks.release(s3));
    assert!(stacks.release(s4));
}

#[test]
fn arena_refuses_a_foreign_stack() {
    let mut other = StackArena::new(0x20_0000, 0x30_0000);
    let foreign = TaskStack::allocate(&mut other, 4096);
    let mut stacks = StackArena::new(0x1000, 0x10_0000);
    let _own = TaskStack::allocate(&mut stacks, 4096);
    assert!(!stacks.release(foreign));
    let next = TaskStack::allocate(&mut stacks, 4096);
    assert_eq!(next.top(), 0x3000);
}

#[test]
fn freed_block_returns_its_stack() {
    let mut hart = Hart::new();
    let mut table = TaskTable::new();
    let mut stacks = arena();
    let mut a = SchedInfo::new(1);
    a.reset(None, 0xA000, 0, &mut stacks);
    let b = SchedInfo::new(2);
    let a = table.spawn(a);
    let b = table.spawn(b);
    init_current(&mut hart, &mut table, &a);
    assert!(table.release(a).is_none());
    let room = stacks.available();
    let prev = current_ctx(&hart);
    let freed = CurrentCtx::set_current(&mut hart, &mut table, prev, &b);
    let mut block = freed.expect("the slot held the last reference");
    assert_eq!(block.pid(), 1);
    let stack = block.take_kstack().expect("reset gave it a stack");
    let old_top = stack.top();
    assert!(block.take_kstack().is_none());
    assert!(stacks.release(stack));
    assert_eq!(stacks.available(), room);
    let reused = TaskStack::allocate(&mut stacks, THREAD_SIZE);
    assert_eq!(reused.top(), old_top);
}

#[test]
fn reset_twice_gives_a_distinct_stack() {
    let mut stacks = arena();
    let mut info = SchedInfo::new(5);
    info.reset(None, 0x1000, 0, &mut stacks);
    let first = info.stack_top();
    info.reset(None, 0x2000, 0, &mut stacks);
    assert_ne!(info.stack_top(), first);
    assert_eq!(info.stack_top(), Some(0x8000_0000 + 2 * THREAD_SIZE));
    assert_eq!(info.thread().ra, 0x2000);
    // the first stack went back to the arena and is taken again
    info.reset(None, 0x3000, 0, &mut stacks);
    assert_eq!(info.stack_top(), Some(0x8000_0000 + THREAD_SIZE));
    assert_eq!(info.pt_regs(), 0x8000_0000 + THREAD_SIZE - 256);
}

#[test]
fn set_current_publishes_next_and_keeps_referenced_prev() {
    let mut hart = Hart::new();
    let mut table = TaskTable::new();
    assert!(try_current_ctx(&hart).is_none());
    let a = table.spawn(SchedInfo::new(1));
    let b = table.spawn(SchedInfo::new(2));
    init_current(&mut hart, &mut table, &a);
    assert_eq!(table.strong_count(a.index()), 2);
    let prev = current_ctx(&hart);
    assert!(prev.ptr_eq(&a));
    assert!(CurrentCtx::set_current(&mut hart, &mut table, prev, &b).is_none());
    let now = current_ctx(&hart);
    assert!(now.ptr_eq(&b));
    assert_eq!(now.as_task_ref().index(), b.index());
    // the run-queue reference `a` still keeps the block alive
    assert!(table.is_live(a.index()));
    assert_eq!(table.strong_count(a.index()), 1);
    assert_eq!(table.strong_count(b.index()), 2);
    let a_index = a.index();
    let freed = table.release(a);
    assert_eq!(freed.map(|info| info.pid()), Some(1));
    assert!(!table.is_live(a_index));
    assert_eq!(table.strong_count(a_index), 0);
}

#[test]
fn set_current_frees_prev_without_other_references() {
    let mut hart = Hart::new();
    let mut table = TaskTable::new();
    let a = table.spawn(SchedInfo::new(1));
    let b = table.spawn(SchedInfo::new(2));
    init_current(&mut hart, &mut table, &a);
    let a_index = a.index();
    assert!(table.release(a).is_none());
    assert!(table.is_live(a_index));
    let prev = CurrentCtx::get(&hart);
    let freed = CurrentCtx::set_current(&mut hart, &mut table, prev, &b);
    assert_eq!(freed.map(|info| info.pid()), Some(1));
    assert!(!table.is_live(a_index));
    assert_eq!(hart.current_task_ptr(), Some(b.index()));
}

#[test]
fn dup_shares_pgd_with_fresh_stack() {
    let mut stacks = arena();
    let mut parent = SchedInfo::new(10);
    parent.set_pgd(Some(PageTable::new(0x7000)));
    parent.set_mm_id(5);
    parent.set_active_mm_id(5);
    parent.reset(None, 0x4000_0000, 0, &mut stacks);
    let child = parent.dup_sched_info(11, &mut stacks);
    assert_eq!(child.try_pgd(), Some(PageTable::new(0x7000)));
    assert_eq!(child.try_pgd(), parent.try_pgd());
    assert_eq!(child.pid(), 11);
    assert_eq!(child.tgid(), 11);
    assert_ne!(child.stack_top(), parent.stack_top());
    assert_eq!(parent.stack_top(), Some(0x8000_0000 + THREAD_SIZE));
    assert_eq!(child.stack_top(), Some(0x8000_0000 + 2 * THREAD_SIZE));
}

#[test]
fn dup_child_has_zero_mm_ids() {
    let mut stacks = arena();
    let mut parent = SchedInfo::new(3);
    parent.set_mm_id(9);
    parent.set_active_mm_id(8);
    let child = parent.dup_sched_info(4, &mut stacks);
    assert_eq!(child.mm_id(), 0);
    assert_eq!(child.active_mm_id(), 0);
    assert_eq!(child.thread(), TaskContext::new());
}

#[test]
fn reset_then_switch_resumes_at_entry() {
    let mut stacks = arena();
    let mut info = SchedInfo::new(1);
    info.reset(Some(0x77), 0x4010_0000, 0x5000_0000, &mut stacks);
    let sp = info.pt_regs();
    assert_eq!(sp, 0x8000_0000 + THREAD_SIZE - 256);
    assert_eq!(info.entry_handle(), Some(0x77));
    let mut hart = Hart::new();
    hart.load_context(0x1234, 0x2000, 0x3000);
    let mut saved = TaskContext::new();
    saved.switch_to(&info.thread(), &mut hart);
    assert_eq!(hart.pc_sp(), (0x4010_0000, sp));
    assert_eq!(read_thread_pointer(&hart), 0x5000_0000);
    assert_eq!(saved, TaskContext { ra: 0x1234, sp: 0x2000, tp: 0x3000 });
}

#[test]
fn stack_top_is_base_plus_size_and_aligned() {
    let mut stacks = StackArena::new(0x1000, 0x10_0000);
    let s1 = TaskStack::allocate(&mut stacks, 4096);
    assert_eq!(s1.top(), 0x1000 + 4096);
    assert_eq!(s1.top() % STACK_ALIGN, 0);
    let s2 = TaskStack::allocate(&mut stacks, 100);
    assert_eq!(s2.top(), 0x2000 + 100);
    let s3 = TaskStack::allocate(&mut stacks, 32);
    assert_eq!(s3.top(), 0x2070 + 32);
    assert_eq!(s3.top() % STACK_ALIGN, 0);
    assert_eq!(stacks.available(), 0x10_0000 - 0x2090);
}

#[test]
fn copy_from_user_round_trip() {
    let mut hart = Hart::new();
    let mem = UserMemory { base: 0x1000, bytes: vec![1, 2, 3, 4, 5, 6] };
    let before = hart.sum_enabled();
    let got = copy_from_user(&mut hart, &mem, 0x1001, 4);
    assert_eq!(got, vec![2, 3, 4, 5]);
    assert_eq!(hart.sum_enabled(), before);
    assert_eq!(mem.bytes, vec![1, 2, 3, 4, 5, 6]);
    let none = copy_from_user(&mut hart, &mem, 0x1006, 0);
    assert!(none.is_empty());
}

#[test]
fn switch_scenario_shared_and_distinct_ids() {
    let mut hart = Hart::new();
    let mut table = TaskTable::new();
    let mut stacks = arena();
    let shared = PageTable::new(0x10_0000);
    let other = PageTable::new(0x20_0000);
    let mut a = SchedInfo::new(1);
    a.set_pgd(Some(shared));
    a.set_mm_id(1);
    a.set_active_mm_id(1);
    a.reset(None, 0xA000, 0, &mut stacks);
    let mut b = SchedInfo::new(2);
    b.set_pgd(Some(shared));
    b.set_mm_id(1);
    b.reset(None, 0xB000, 0, &mut stacks);
    let mut c = SchedInfo::new(3);
    c.set_pgd(Some(other));
    c.set_mm_id(2);
    c.reset(None, 0xC000, 0, &mut stacks);
    let a = table.spawn(a);
    let b = table.spawn(b);
    let c = table.spawn(c);
    write_page_table_root(&mut hart, shared.root_paddr());
    init_current(&mut hart, &mut table, &a);
    let flushes = hart.tlb_flush_count();

    let prev = current_ctx(&hart);
    assert!(table.switch_to(&mut hart, prev, &b).is_none());
    assert_eq!(hart.tlb_flush_count(), flushes);
    assert_eq!(hart.pc_sp().0, 0xB000);

    let prev = current_ctx(&hart);
    assert!(table.switch_to(&mut hart, prev, &c).is_none());
    assert_eq!(hart.tlb_flush_count(), flushes + 1);
    assert_eq!(read_page_table_root(&hart), other.root_paddr());
    assert_eq!(hart.pc_sp().0, 0xC000);
    assert!(current_ctx(&hart).ptr_eq(&c));
    assert_eq!(table.get(&c).active_mm_id(), 2);
    assert_eq!(table.get(&b).thread().ra, 0xB000);
}

#[test]
fn get_user_str_reads_terminated_string() {
    let mut hart = Hart::new();
    let mem = UserMemory { base: 0x100, bytes: b"xhello\0rest".to_vec() };
    assert_eq!(get_user_str(&mut hart, &mem, 0x101), Some(String::from("hello")));
    assert!(!hart.sum_enabled());
    assert_eq!(get_user_str(&mut hart, &mem, 0x106), Some(String::new()));
}

#[test]
fn get_user_str_rejects_bad_input() {
    let mut hart = Hart::new();
    let mem = UserMemory { base: 0x100, bytes: vec![0x61, 0xff, 0xfe, 0] };
    assert_eq!(get_user_str(&mut hart, &mem, 0x100), None);
    let unterminated = UserMemory { base: 0x100, bytes: b"abc".to_vec() };
    assert_eq!(get_user_str(&mut hart, &unterminated, 0x100), None);
    assert_eq!(get_user_str(&mut hart, &unterminated, 0x50), None);
    assert_eq!(get_user_str(&mut hart, &unterminated, 0x103), None);
    let multi = UserMemory { base: 0, bytes: "é\0".as_bytes().to_vec() };
    assert_eq!(get_user_str(&mut hart, &multi, 0), Some(String::from("é")));
}

#[test]
fn init_bytes_pads_with_zeros() {
    let mut hart = Hart::new();
    let mut mem = UserMemory { base: 0x10, bytes: vec![0xAA; 12] };
    init_bytes_from_str(&mut hart, &mut mem, 0x12, 8, "Linux");
    assert_eq!(
        mem.bytes,
        vec![0xAA, 0xAA, b'L', b'i', b'n', b'u', b'x', 0, 0, 0, 0xAA, 0xAA]
    );
    assert!(!hart.sum_enabled());
}

#[test]
fn register_primitives() {
    let mut hart = Hart::new();
    assert!(!irqs_enabled(&hart));
    enable_irqs(&mut hart);
    assert!(irqs_enabled(&hart));
    disable_irqs(&mut hart);
    assert!(!irqs_enabled(&hart));
    enable_sum(&mut hart);
    assert!(hart.sum_enabled());
    disable_sum(&mut hart);
    assert!(!hart.sum_enabled());
    write_thread_pointer(&mut hart, 0xdead);
    assert_eq!(read_thread_pointer(&hart), 0xdead);
    set_trap_vector_base(&mut hart, 0x8020_0000);
    enable_irqs(&mut hart);
    halt(&mut hart);
    assert!(hart.is_halted());
    assert!(!irqs_enabled(&hart));
}

#[test]
fn kernel_page_table_setup() {
    let mut hart = Hart::new();
    setup_page_table_root(&mut hart, PageTable::new(0x8_0000));
    assert_eq!(read_page_table_root(&hart), 0x8_0000);
    setup_page_table_root(&mut hart, PageTable::new(0x9_0000));
    assert_eq!(read_page_table_root(&hart), 0x8_0000);
    write_page_table_root(&mut hart, 0x3000);
    reuse_page_table_root(&mut hart);
    assert_eq!(read_page_table_root(&hart), 0x8_0000);
    assert_eq!(dup_kernel_pg_dir(&hart), PageTable::new(0x8_0000));
}

#[test]
fn alignment_helpers() {
    assert_eq!(align_up_4k(1), 4096);
    assert_eq!(align_up_4k(4096), 4096);
    assert_eq!(align_up_4k(0), 0);
    assert_eq!(align_down(264, 16), 256);
    assert!(is_aligned_4k(8192));
    assert!(!is_aligned_4k(8193));
}

fn frame(a7: usize, a0: usize) -> TrapFrame {
    TrapFrame {
        regs: GeneralRegisters { a0, a1: 0, a2: 0, a3: 0, a4: 0, a5: 0, a7 },
        sepc: 0x1000,
    }
}

#[test]
fn syscall_stubs() {
    let tf = frame(0x39, 3);
    assert_eq!(linux_syscall_close(&tf), 0);
    assert_eq!(linux_syscall_exit_group(&tf), 0);
    taskctx::syscall::init();
}

#[test]
fn decode_known_and_unknown_syscalls() {
    assert_eq!(decode_syscall(0x38), Syscall::Openat);
    assert_eq!(decode_syscall(0x3f), Syscall::Read);
    assert_eq!(decode_syscall(0x53), Syscall::ExitGroup);
    assert_eq!(decode_syscall(0x5d), Syscall::Exit);
    assert_eq!(decode_syscall(0xa0), Syscall::Uname);
    assert_eq!(decode_syscall(0xde), Syscall::Mmap);
    assert_eq!(decode_syscall(0x1234), Syscall::Unknown);
}

#[test]
fn handle_syscall_answers_local_calls_once() {
    let mut tf = frame(0x4e, 7);
    assert_eq!(handle_syscall(&mut tf), None);
    assert_eq!(tf.regs.a0, usize::MAX);
    assert_eq!(tf.sepc, 0x1004);
    let mut tf = frame(0x39, 7);
    assert_eq!(handle_syscall(&mut tf), None);
    assert_eq!(tf.regs.a0, 0);
    assert_eq!(tf.sepc, 0x1004);
    let mut tf = frame(0x999, 7);
    assert_eq!(handle_syscall(&mut tf), None);
    assert_eq!(tf.regs.a0, 0);
}

#[test]
fn handle_syscall_hands_service_calls_back() {
    let mut tf = frame(0x40, 1);
    assert_eq!(handle_syscall(&mut tf), Some(Syscall::Write));
    assert_eq!(tf, frame(0x40, 1));
    finish_syscall(&mut tf, 12);
    assert_eq!(tf.regs.a0, 12);
    assert_eq!(tf.sepc, 0x1004);
}

#[test]
fn uname_fills_all_fields() {
    let mut hart = Hart::new();
    let mut mem = UserMemory { base: 0x2000, bytes: vec![0xEE; 6 * UTS_FIELD_LEN + 2] };
    let tf = frame(0xa0, 0x2001);
    assert_eq!(linux_syscall_uname(&mut hart, &mut mem, &tf), 0);
    let field = |k: usize| -> Vec<u8> { mem.bytes[1 + k * 65..1 + (k + 1) * 65].to_vec() };
    let padded = |s: &str| -> Vec<u8> {
        let mut v = s.as_bytes().to_vec();
        v.resize(65, 0);
        v
    };
    assert_eq!(field(0), padded("Linux"));
    assert_eq!(field(1), padded("host"));
    assert_eq!(field(2), padded("5.9.0-rc4+"));
    assert_eq!(field(3), padded("#1337 SMP Fri Mar 4 09:36:42 CST 2022"));
    assert_eq!(field(4), padded("riscv64"));
    assert_eq!(field(5), padded("(none)"));
    assert_eq!(mem.bytes[0], 0xEE);
    assert_eq!(mem.bytes[6 * 65 + 1], 0xEE);
    assert!(!hart.sum_enabled());
}
