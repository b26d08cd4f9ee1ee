//! The architecture register interface of one hart (hardware thread).
//!
//! Every register the task core reads or writes is held in [`Hart`]; each
//! primitive states exactly which registers it changes.

use vstd::prelude::*;

verus! {

pub const PAGE_SIZE_4K: usize = 4096;

/// `addr` rounded down to a multiple of `align`.
pub open spec fn align_down_spec(addr: nat, align: nat) -> nat {
    (addr - addr % align) as nat
}

/// `addr` rounded up to a multiple of 4 KiB.
pub open spec fn align_up_4k_spec(addr: nat) -> nat {
    ((addr + 4095) / 4096 * 4096) as nat
}

/// Rounds `addr` down to a multiple of `align`.
pub fn align_down(addr: usize, align: usize) -> (r: usize)
    requires
        align > 0,
    ensures
        r == align_down_spec(addr as nat, align as nat),
        r <= addr,
        r % align == 0,
{
    proof {
        vstd::arithmetic::div_mod::lemma_fundamental_div_mod(addr as int, align as int);
        vstd::arithmetic::div_mod::lemma_mod_multiples_basic(addr as int / align as int, align as int);
        vstd::arithmetic::mul::lemma_mul_is_commutative(addr as int / align as int, align as int);
        assert(addr - addr % align == (addr as int / align as int) * align);
    }
    addr - addr % align
}

/// Rounds `addr` up to a multiple of 4 KiB.
pub fn align_up_4k(addr: usize) -> (r: usize)
    requires
        addr + 4095 <= usize::MAX,
    ensures
        r == align_up_4k_spec(addr as nat),
        addr <= r,
        r % 4096 == 0,
{
    let q: usize = (addr + 4095) / 4096;
    proof {
        assert(q * 4096 <= addr + 4095) by (nonlinear_arith)
            requires q == (addr + 4095) / 4096;
        assert(addr <= q * 4096) by (nonlinear_arith)
            requires q == (addr + 4095) / 4096;
        assert((q * 4096) % 4096 == 0) by (nonlinear_arith);
    }
    q * 4096
}

/// Whether `addr` is a multiple of 4 KiB.
pub fn is_aligned_4k(addr: usize) -> (r: bool)
    ensures
        r == (addr % 4096 == 0),
{
    addr % 4096 == 0
}

/// A page-table object, seen through the physical address of its root.
///
/// A value of this type is also the shared handle to the table: two handles
/// refer to the same table exactly when their roots are equal.
#[derive(Clone, Copy, PartialEq, Eq, Structural, Debug)]
pub struct PageTable {
    pub root: usize,
}

impl PageTable {
    /// The table whose root is at `root`, which must be 4 KiB aligned.
    pub fn new(root: usize) -> (r: PageTable)
        requires
            root % PAGE_SIZE_4K == 0,
        ensures
            r.root == root,
    {
        PageTable { root }
    }

    /// The physical address of the root of this table.
    pub fn root_paddr(&self) -> (r: usize)
        ensures
            r == self.root,
    {
        self.root
    }
}

/// The registers of one hart that the task core uses.
#[derive(Clone, Copy, PartialEq, Eq, Structural, Debug)]
pub struct HartState {
    /// Root of the active translation (the `satp` register).
    pub root: usize,
    /// Number of whole-TLB invalidations issued so far (saturating).
    pub tlb_flushes: u64,
    /// Number of single-address TLB invalidations issued so far (saturating).
    pub page_flushes: u64,
    /// The address of the latest single-address invalidation, if any.
    pub last_page_flush: Option<usize>,
    /// Supervisor may access user memory (`sstatus.SUM`).
    pub sum: bool,
    /// Interrupts are enabled (`sstatus.SIE`).
    pub sie: bool,
    /// The hart has been halted.
    pub halted: bool,
    /// Trap vector base (`stvec`).
    pub stvec: usize,
    /// Thread pointer (`tp`).
    pub tp: usize,
    /// Where execution resumes (`ra` after a context switch).
    pub pc: usize,
    /// Stack pointer.
    pub sp: usize,
    /// The per-CPU current-task slot: the index of the published task, if any.
    pub current: Option<usize>,
    /// The kernel page table, once set up.
    pub kernel_pt: Option<PageTable>,
}

/// One more TLB invalidation, saturating at the counter's limit.
pub open spec fn bump(n: u64) -> u64 {
    if n < u64::MAX { (n + 1) as u64 } else { n }
}

/// One hart. All fields are private: they change only through the primitives.
/// The translation root, like the `satp` register that holds only a page
/// number, is always 4 KiB aligned.
pub struct Hart {
    st: HartState,
}

impl Hart {
    #[verifier::type_invariant]
    spec fn roots_aligned(&self) -> bool {
        &&& self.st.root % 4096 == 0
        &&& self.st.kernel_pt is Some ==> self.st.kernel_pt->Some_0.root % 4096 == 0
    }
}

impl View for Hart {
    type V = HartState;

    closed spec fn view(&self) -> HartState {
        self.st
    }
}

impl Hart {
    /// A hart at boot: no translation root, interrupts and user access off,
    /// no task published.
    pub fn new() -> (r: Hart)
        ensures
            r@ == (HartState {
                root: 0,
                tlb_flushes: 0,
                page_flushes: 0,
                last_page_flush: None,
                sum: false,
                sie: false,
                halted: false,
                stvec: 0,
                tp: 0,
                pc: 0,
                sp: 0,
                current: None,
                kernel_pt: None,
            }),
    {
        Hart {
            st: HartState {
                root: 0,
                tlb_flushes: 0,
                page_flushes: 0,
                last_page_flush: None,
                sum: false,
                sie: false,
                halted: false,
                stvec: 0,
                tp: 0,
                pc: 0,
                sp: 0,
                current: None,
                kernel_pt: None,
            },
        }
    }

    /// Number of whole-TLB invalidations issued so far.
    pub fn tlb_flush_count(&self) -> (r: u64)
        ensures
            r == self@.tlb_flushes,
    {
        self.st.tlb_flushes
    }

    /// Number of single-address TLB invalidations issued so far.
    pub fn page_flush_count(&self) -> (r: u64)
        ensures
            r == self@.page_flushes,
    {
        self.st.page_flushes
    }

    /// The address of the latest single-address TLB invalidation.
    pub fn last_page_flush(&self) -> (r: Option<usize>)
        ensures
            r == self@.last_page_flush,
    {
        self.st.last_page_flush
    }

    /// Whether supervisor access to user memory is enabled.
    pub fn sum_enabled(&self) -> (r: bool)
        ensures
            r == self@.sum,
    {
        self.st.sum
    }

    /// Whether the hart has been halted.
    pub fn is_halted(&self) -> (r: bool)
        ensures
            r == self@.halted,
    {
        self.st.halted
    }

    /// The resume point and stack pointer of the code running on the hart.
    pub fn pc_sp(&self) -> (r: (usize, usize))
        ensures
            r == (self@.pc, self@.sp),
    {
        (self.st.pc, self.st.sp)
    }

    /// Sets the resume point, stack pointer and thread pointer at once
    /// (the restore half of a context switch).
    pub fn load_context(&mut self, pc: usize, sp: usize, tp: usize)
        ensures
            final(self)@ == (HartState { pc, sp, tp, ..old(self)@ }),
    {
        proof {
            use_type_invariant(&*self);
        }
        self.st.pc = pc;
        self.st.sp = sp;
        self.st.tp = tp;
    }

    /// The kernel page table, once set up.
    pub fn kernel_page_table(&self) -> (r: Option<PageTable>)
        ensures
            r == self@.kernel_pt,
    {
        self.st.kernel_pt
    }

    /// The per-CPU current-task slot.
    pub fn current_task_ptr(&self) -> (r: Option<usize>)
        ensures
            r == self@.current,
    {
        self.st.current
    }

    /// Publishes `idx` in the per-CPU current-task slot.
    pub fn set_current_task_ptr(&mut self, idx: usize)
        ensures
            final(self)@ == (HartState { current: Some(idx), ..old(self)@ }),
    {
        proof {
            use_type_invariant(&*self);
        }
        self.st.current = Some(idx);
    }

    fn count_flush(&mut self)
        ensures
            final(self)@ == (HartState { tlb_flushes: bump(old(self)@.tlb_flushes), ..old(self)@ }),
    {
        proof {
            use_type_invariant(&*self);
        }
        if self.st.tlb_flushes < u64::MAX {
            self.st.tlb_flushes = self.st.tlb_flushes + 1;
        }
    }
}

/// Lets supervisor code dereference user addresses.
pub fn enable_sum(hart: &mut Hart)
    ensures
        final(hart)@ == (HartState { sum: true, ..old(hart)@ }),
{
    proof {
        use_type_invariant(&*hart);
    }
    hart.st.sum = true;
}

/// Forbids supervisor code to dereference user addresses.
pub fn disable_sum(hart: &mut Hart)
    ensures
        final(hart)@ == (HartState { sum: false, ..old(hart)@ }),
{
    proof {
        use_type_invariant(&*hart);
    }
    hart.st.sum = false;
}

/// Allows the hart to respond to interrupts.
pub fn enable_irqs(hart: &mut Hart)
    ensures
        final(hart)@ == (HartState { sie: true, ..old(hart)@ }),
{
    proof {
        use_type_invariant(&*hart);
    }
    hart.st.sie = true;
}

/// Makes the hart ignore interrupts.
pub fn disable_irqs(hart: &mut Hart)
    ensures
        final(hart)@ == (HartState { sie: false, ..old(hart)@ }),
{
    proof {
        use_type_invariant(&*hart);
    }
    hart.st.sie = false;
}

/// Whether the hart responds to interrupts.
pub fn irqs_enabled(hart: &Hart) -> (r: bool)
    ensures
        r == hart@.sie,
{
    hart.st.sie
}

/// Parks the hart until an interrupt arrives. With interrupts disabled it
/// would never return, so they must be enabled.
pub fn wait_for_irqs(hart: &Hart)
    requires
        hart@.sie,
{
}

/// Disables interrupts and parks the hart for good.
pub fn halt(hart: &mut Hart)
    ensures
        final(hart)@ == (HartState { sie: false, halted: true, ..old(hart)@ }),
{
    proof {
        use_type_invariant(&*hart);
    }
    disable_irqs(hart);
    hart.st.halted = true;
}

/// The physical address of the active page-table root.
pub fn read_page_table_root(hart: &Hart) -> (r: usize)
    ensures
        r == hart@.root,
        r % PAGE_SIZE_4K == 0,
{
    proof {
        use_type_invariant(hart);
    }
    hart.st.root
}

/// Loads a new page-table root and invalidates the whole TLB; a no-op when
/// `root_paddr` is already loaded. The root must be 4 KiB aligned.
pub fn write_page_table_root(hart: &mut Hart, root_paddr: usize)
    requires
        root_paddr % PAGE_SIZE_4K == 0,
    ensures
        old(hart)@.root == root_paddr ==> final(hart)@ == old(hart)@,
        old(hart)@.root != root_paddr ==> final(hart)@ == (HartState {
            root: root_paddr,
            tlb_flushes: bump(old(hart)@.tlb_flushes),
            ..old(hart)@
        }),
{
    proof {
        use_type_invariant(&*hart);
    }
    let old_root = read_page_table_root(hart);
    if old_root != root_paddr {
        hart.st.root = root_paddr;
        hart.count_flush();
    }
}

/// Invalidates the TLB entry of `vaddr`, or the whole TLB for `None`.
pub fn flush_tlb(hart: &mut Hart, vaddr: Option<usize>)
    ensures
        vaddr is None ==> final(hart)@ == (HartState {
            tlb_flushes: bump(old(hart)@.tlb_flushes),
            ..old(hart)@
        }),
        vaddr is Some ==> final(hart)@ == (HartState {
            page_flushes: bump(old(hart)@.page_flushes),
            last_page_flush: vaddr,
            ..old(hart)@
        }),
{
    proof {
        use_type_invariant(&*hart);
    }
    match vaddr {
        Some(va) => {
            if hart.st.page_flushes < u64::MAX {
                hart.st.page_flushes = hart.st.page_flushes + 1;
            }
            hart.st.last_page_flush = Some(va);
        },
        None => hart.count_flush(),
    }
}

/// Installs the trap entry address.
pub fn set_trap_vector_base(hart: &mut Hart, stvec: usize)
    ensures
        final(hart)@ == (HartState { stvec, ..old(hart)@ }),
{
    proof {
        use_type_invariant(&*hart);
    }
    hart.st.stvec = stvec;
}

/// Reads the thread pointer.
pub fn read_thread_pointer(hart: &Hart) -> (r: usize)
    ensures
        r == hart@.tp,
{
    hart.st.tp
}

/// Writes the thread pointer.
pub fn write_thread_pointer(hart: &mut Hart, tp: usize)
    ensures
        final(hart)@ == (HartState { tp, ..old(hart)@ }),
{
    proof {
        use_type_invariant(&*hart);
    }
    hart.st.tp = tp;
}

/// Records `pt` as the kernel page table (only the first one offered is
/// kept) and loads the kernel page table's root. Its root must be 4 KiB aligned.
pub fn setup_page_table_root(hart: &mut Hart, pt: PageTable)
    requires
        pt.root % PAGE_SIZE_4K == 0,
    ensures
        ({
            let kpt = match old(hart)@.kernel_pt {
                Some(k) => k,
                None => pt,
            };
            let loaded = HartState { kernel_pt: Some(kpt), ..old(hart)@ };
            if loaded.root == kpt.root {
                final(hart)@ == loaded
            } else {
                final(hart)@ == (HartState {
                    root: kpt.root,
                    tlb_flushes: bump(loaded.tlb_flushes),
                    ..loaded
                })
            }
        }),
{
    proof {
        use_type_invariant(&*hart);
    }
    if hart.st.kernel_pt.is_none() {
        hart.st.kernel_pt = Some(pt);
    }
    let kpt = match hart.st.kernel_pt {
        Some(k) => k,
        None => pt,
    };
    write_page_table_root(hart, kpt.root_paddr());
}

/// Loads the kernel page table's root again.
pub fn reuse_page_table_root(hart: &mut Hart)
    requires
        old(hart)@.kernel_pt is Some,
    ensures
        ({
            let root = old(hart)@.kernel_pt->Some_0.root;
            if old(hart)@.root == root {
                final(hart)@ == old(hart)@
            } else {
                final(hart)@ == (HartState {
                    root,
                    tlb_flushes: bump(old(hart)@.tlb_flushes),
                    ..old(hart)@
                })
            }
        }),
{
    proof {
        use_type_invariant(&*hart);
    }
    let kpt = match hart.st.kernel_pt {
        Some(k) => k,
        None => PageTable::new(0),
    };
    write_page_table_root(hart, kpt.root_paddr());
}

/// A copy of the kernel page table.
pub fn dup_kernel_pg_dir(hart: &Hart) -> (r: PageTable)
    requires
        hart@.kernel_pt is Some,
    ensures
        r == hart@.kernel_pt->Some_0,
{
    match hart.st.kernel_pt {
        Some(k) => k,
        None => PageTable::new(0),
    }
}

/// The context a running hart leaves behind when it switches away.
pub open spec fn saved_context(h: HartState) -> TaskContext {
    TaskContext { ra: h.pc, sp: h.sp, tp: h.tp }
}

/// `h1` is `h0` resuming the saved context `next`.
pub open spec fn resumed(h0: HartState, next: TaskContext, h1: HartState) -> bool {
    h1 == (HartState { pc: next.ra, sp: next.sp, tp: next.tp, ..h0 })
}

/// Callee-saved state of a task that is not running.
#[derive(Clone, Copy, PartialEq, Eq, Structural, Debug)]
pub struct TaskContext {
    /// Where the task resumes.
    pub ra: usize,
    /// Its stack pointer.
    pub sp: usize,
    /// Its thread pointer (thread-local storage base).
    pub tp: usize,
}

impl TaskContext {
    pub open spec fn new_spec() -> TaskContext {
        TaskContext { ra: 0, sp: 0, tp: 0 }
    }

    /// An all-zero context.
    pub fn new() -> (r: TaskContext)
        ensures
            r == TaskContext::new_spec(),
    {
        TaskContext { ra: 0, sp: 0, tp: 0 }
    }

    /// Prepares the context so that switching to it begins at `entry` on the
    /// stack `kstack_top` with thread pointer `tls`.
    pub fn init(&mut self, entry: usize, kstack_top: usize, tls: usize)
        ensures
            *final(self) == (TaskContext { ra: entry, sp: kstack_top, tp: tls }),
    {
        self.ra = entry;
        self.sp = kstack_top;
        self.tp = tls;
    }

    /// Saves the hart's running state into `self` and resumes `next`.
    pub fn switch_to(&mut self, next: &TaskContext, hart: &mut Hart)
        ensures
            *final(self) == saved_context(old(hart)@),
            resumed(old(hart)@, *next, final(hart)@),
    {
        self.ra = hart.st.pc;
        self.sp = hart.st.sp;
        self.tp = hart.st.tp;
        hart.load_context(next.ra, next.sp, next.tp);
    }
}

} // verus!
