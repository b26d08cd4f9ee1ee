//! Kernel stacks, the task control block and the lazy address-space switch.

use vstd::prelude::*;
use crate::arch::{
    resumed, align_down, align_up_4k, align_down_spec, align_up_4k_spec, bump, write_page_table_root,
    Hart, HartState, PageTable, TaskContext, PAGE_SIZE_4K,
};

verus! {

/// Bytes of a task's kernel stack.
pub const THREAD_SIZE: usize = 32 * PAGE_SIZE_4K;

/// Bytes of the trap frame saved at the top of a kernel stack.
pub const TRAPFRAME_SIZE: usize = 264;

/// Alignment of every kernel stack.
pub const STACK_ALIGN: usize = 16;

pub type Pid = usize;

/// Offset below a stack's top at which the trap frame starts.
pub open spec fn trapframe_offset() -> nat {
    align_down_spec(TRAPFRAME_SIZE as nat, STACK_ALIGN as nat)
}

/// The size of a task's kernel stack as allocated by `reset` and `dup_sched_info`.
pub open spec fn task_stack_size() -> nat {
    align_up_4k_spec(THREAD_SIZE as nat)
}

/// The region of memory kernel stacks are carved from. It must belong to
/// this arena alone. Stacks that are released are kept on a list of free
/// regions, and an allocation takes the most recently released region when
/// it has the requested size; otherwise it carves fresh bytes from the region.
/// No two stacks the arena holds overlap.
pub struct StackArena {
    start: usize,
    next: usize,
    end: usize,
    free: Vec<(usize, usize)>,
}

/// The two stacks share no byte.
pub open spec fn disjoint(a: &TaskStack, b: &TaskStack) -> bool {
    a.top_spec() <= b.base_spec() || b.top_spec() <= a.base_spec()
}

/// The ranges `[b1, t1)` and `[b2, t2)` share no address.
spec fn apart(b1: int, t1: int, b2: int, t2: int) -> bool {
    t1 <= b2 || t2 <= b1
}

impl StackArena {
    /// Start of the region.
    pub closed spec fn start_spec(&self) -> nat {
        self.start as nat
    }

    /// First address never handed out yet.
    pub closed spec fn next_spec(&self) -> nat {
        self.next as nat
    }

    /// End of the region.
    pub closed spec fn end_spec(&self) -> nat {
        self.end as nat
    }

    /// The released regions, as (base, size), latest last.
    pub closed spec fn free_spec(&self) -> Seq<(usize, usize)> {
        self.free@
    }

    /// `s` is a stack this arena has handed out and not taken back: it lies
    /// in the used part of the region and overlaps no free region.
    pub closed spec fn holds(&self, s: &TaskStack) -> bool {
        &&& self.start <= s.base
        &&& s.base % 16 == 0
        &&& s.base + s.size <= self.next
        &&& forall|i: int|
            0 <= i < self.free@.len() ==> apart(
                s.base as int,
                s.base + s.size,
                #[trigger] self.free@[i].0 as int,
                self.free@[i].0 + self.free@[i].1,
            )
    }

    pub closed spec fn wf(&self) -> bool {
        &&& self.start % 16 == 0
        &&& self.next % 16 == 0
        &&& self.end % 16 == 0
        &&& self.start <= self.next <= self.end
        &&& forall|i: int|
            0 <= i < self.free@.len() ==> {
                &&& #[trigger] self.free@[i].0 % 16 == 0
                &&& self.start <= self.free@[i].0
                &&& self.free@[i].0 + self.free@[i].1 <= self.next
            }
        &&& forall|i: int, j: int|
            0 <= i < j < self.free@.len() ==> apart(
                #[trigger] self.free@[i].0 as int,
                self.free@[i].0 + self.free@[i].1,
                #[trigger] self.free@[j].0 as int,
                self.free@[j].0 + self.free@[j].1,
            )
    }

    /// Bytes never handed out yet.
    pub open spec fn room(&self) -> nat {
        (self.end_spec() - self.next_spec()) as nat
    }

    /// An allocation of `size` bytes reuses the latest released region.
    pub open spec fn reuses(&self, size: nat) -> bool {
        self.free_spec().len() > 0 && self.free_spec().last().1 == size
    }

    /// An allocation of `size` bytes succeeds.
    pub open spec fn can_fit(&self, size: nat) -> bool {
        self.reuses(size) || size <= self.room()
    }

    /// A region starting at `base` and ending before `end`; both must be
    /// aligned for a stack.
    pub fn new(base: usize, end: usize) -> (r: StackArena)
        requires
            base % 16 == 0,
            end % 16 == 0,
            base <= end,
        ensures
            r.wf(),
            r.start_spec() == base,
            r.next_spec() == base,
            r.end_spec() == end,
            r.free_spec() == Seq::<(usize, usize)>::empty(),
    {
        StackArena { start: base, next: base, end, free: Vec::new() }
    }

    /// Takes `s` back when the arena holds it; its region is then free for a
    /// later allocation. A stack the arena does not hold is dropped.
    pub fn release(&mut self, s: TaskStack) -> (taken: bool)
        requires
            old(self).wf(),
        ensures
            taken == old(self).holds(&s),
            release_post(*old(self), s, *final(self)),
    {
        if self.start > s.base || s.base % 16 != 0 || s.size > self.next || s.base > self.next - s.size {
            return false;
        }
        let top = s.base + s.size;
        let n = self.free.len();
        let mut i: usize = 0;
        while i < n
            invariant
                self.wf(),
                n == self.free@.len(),
                self.start <= s.base,
                s.base % 16 == 0,
                s.base + s.size <= self.next,
                top == s.base + s.size,
                i <= n,
                forall|k: int|
                    0 <= k < i ==> apart(
                        s.base as int,
                        s.base + s.size,
                        #[trigger] self.free@[k].0 as int,
                        self.free@[k].0 + self.free@[k].1,
                    ),
            decreases n - i,
        {
            let (b, sz) = self.free[i];
            proof {
                assert(self.free@[i as int] == (b, sz));
            }
            if !(top <= b || b + sz <= s.base) {
                proof {
                    assert(!self.holds(&s)) by {
                        assert(!apart(s.base as int, s.base + s.size, self.free@[i as int].0 as int, self.free@[i as int].0 + self.free@[i as int].1));
                    }
                }
                return false;
            }
            i = i + 1;
        }
        let ghost before = self.free@;
        self.free.push((s.base, s.size));
        proof {
            assert forall|k: int| 0 <= k < self.free@.len() implies {
                &&& #[trigger] self.free@[k].0 % 16 == 0
                &&& self.start <= self.free@[k].0
                &&& self.free@[k].0 + self.free@[k].1 <= self.next
            } by {
                if k < before.len() {
                    assert(self.free@[k] == before[k]);
                }
            }
            assert forall|a: int, b: int| 0 <= a < b < self.free@.len() implies apart(
                #[trigger] self.free@[a].0 as int,
                self.free@[a].0 + self.free@[a].1,
                #[trigger] self.free@[b].0 as int,
                self.free@[b].0 + self.free@[b].1,
            ) by {
                assert(self.free@[a] == before[a]);
                if b < before.len() {
                    assert(self.free@[b] == before[b]);
                } else {
                    assert(apart(s.base as int, s.base + s.size, before[a].0 as int, before[a].0 + before[a].1));
                }
            }
        }
        true
    }

    /// Bytes never handed out yet.
    pub fn available(&self) -> (r: usize)
        requires
            self.wf(),
        ensures
            r == self.room(),
    {
        self.end - self.next
    }
}

/// `a1` is `a0` after `release(s)`: a held stack's region joins the free
/// list, anything else leaves the arena as it was.
pub open spec fn release_post(a0: StackArena, s: TaskStack, a1: StackArena) -> bool {
    &&& a1.wf()
    &&& a1.start_spec() == a0.start_spec()
    &&& a1.next_spec() == a0.next_spec()
    &&& a1.end_spec() == a0.end_spec()
    &&& a1.free_spec() == if a0.holds(&s) {
        a0.free_spec().push((s.base_spec() as usize, s.size_spec() as usize))
    } else {
        a0.free_spec()
    }
}

/// `r` and `a1` are what allocating `size` bytes from `a0` gives: the latest
/// released region when it has that size, else fresh bytes at the arena's
/// next free address. Either way the arena then holds `r`, still holds every
/// stack it held, and `r` overlaps none of them.
pub open spec fn alloc_post(a0: StackArena, size: nat, r: &TaskStack, a1: StackArena) -> bool {
    &&& r.wf()
    &&& r.size_spec() == size
    &&& a1.wf()
    &&& a1.start_spec() == a0.start_spec()
    &&& a1.end_spec() == a0.end_spec()
    &&& a1.holds(r)
    &&& forall|s: TaskStack| #[trigger] a0.holds(&s) ==> a1.holds(&s) && disjoint(&s, r)
    &&& a0.reuses(size) ==> {
        &&& r.base_spec() == a0.free_spec().last().0
        &&& a1.free_spec() == a0.free_spec().drop_last()
        &&& a1.next_spec() == a0.next_spec()
    }
    &&& !a0.reuses(size) ==> {
        &&& r.base_spec() == a0.next_spec()
        &&& a1.free_spec() == a0.free_spec()
        &&& r.top_spec() <= a1.next_spec()
    }
}

/// An owned, 16-byte aligned kernel stack.
pub struct TaskStack {
    base: usize,
    size: usize,
}

impl TaskStack {
    pub closed spec fn base_spec(&self) -> nat {
        self.base as nat
    }

    pub closed spec fn size_spec(&self) -> nat {
        self.size as nat
    }

    /// The address one past the stack's last byte.
    pub open spec fn top_spec(&self) -> nat {
        self.base_spec() + self.size_spec()
    }

    pub closed spec fn wf(&self) -> bool {
        &&& self.base % 16 == 0
        &&& self.base + self.size <= usize::MAX
    }

    /// Takes `size` bytes from `arena`, aligned to 16 bytes. A stack that does
    /// not fit is fatal for the kernel, so it must fit.
    pub fn allocate(arena: &mut StackArena, size: usize) -> (r: TaskStack)
        requires
            old(arena).wf(),
            old(arena).can_fit(size as nat),
        ensures
            alloc_post(*old(arena), size as nat, &r, *final(arena)),
    {
        let n = arena.free.len();
        if n > 0 && arena.free[n - 1].1 == size {
            let ghost before = arena.free@;
            let (base, sz) = arena.free.pop().unwrap();
            let r = TaskStack { base, size: sz };
            proof {
                assert(arena.free@ =~= before.drop_last());
                assert(before[n - 1] == (base, sz));
                assert forall|k: int| 0 <= k < arena.free@.len() implies apart(
                    base as int,
                    base + sz,
                    #[trigger] arena.free@[k].0 as int,
                    arena.free@[k].0 + arena.free@[k].1,
                ) by {
                    assert(arena.free@[k] == before[k]);
                }
                assert forall|s: TaskStack| #[trigger] old(arena).holds(&s) implies arena.holds(&s)
                    && disjoint(&s, &r) by {
                    assert(apart(s.base as int, s.base + s.size, before[n - 1].0 as int, before[n - 1].0 + before[n - 1].1));
                    assert forall|k: int| 0 <= k < arena.free@.len() implies apart(
                        s.base as int,
                        s.base + s.size,
                        #[trigger] arena.free@[k].0 as int,
                        arena.free@[k].0 + arena.free@[k].1,
                    ) by {
                        assert(arena.free@[k] == before[k]);
                    }
                }
                assert forall|i: int| 0 <= i < arena.free@.len() implies {
                    &&& #[trigger] arena.free@[i].0 % 16 == 0
                    &&& arena.start <= arena.free@[i].0
                    &&& arena.free@[i].0 + arena.free@[i].1 <= arena.next
                } by {
                    assert(arena.free@[i] == before[i]);
                }
                assert forall|i: int, j: int| 0 <= i < j < arena.free@.len() implies apart(
                    #[trigger] arena.free@[i].0 as int,
                    arena.free@[i].0 + arena.free@[i].1,
                    #[trigger] arena.free@[j].0 as int,
                    arena.free@[j].0 + arena.free@[j].1,
                ) by {
                    assert(arena.free@[i] == before[i]);
                    assert(arena.free@[j] == before[j]);
                }
            }
            return r;
        }
        let base = arena.next;
        let used = base + size;
        let pad: usize = (16 - used % 16) % 16;
        proof {
            assert(used + pad <= arena.end) by (nonlinear_arith)
                requires
                    used <= arena.end,
                    arena.end % 16 == 0,
                    pad == (16 - used % 16) % 16,
            ;
            assert((used + pad) % 16 == 0) by (nonlinear_arith)
                requires pad == (16 - used % 16) % 16;
        }
        arena.next = used + pad;
        let r = TaskStack { base, size };
        proof {
            assert forall|s: TaskStack| #[trigger] old(arena).holds(&s) implies arena.holds(&s)
                && disjoint(&s, &r) by {
                assert forall|k: int| 0 <= k < arena.free@.len() implies apart(
                    s.base as int,
                    s.base + s.size,
                    #[trigger] arena.free@[k].0 as int,
                    arena.free@[k].0 + arena.free@[k].1,
                ) by {
                    assert(old(arena).free@[k] == arena.free@[k]);
                }
            }
            assert forall|k: int| 0 <= k < arena.free@.len() implies apart(
                base as int,
                base + size,
                #[trigger] arena.free@[k].0 as int,
                arena.free@[k].0 + arena.free@[k].1,
            ) by {
                assert(old(arena).free@[k] == arena.free@[k]);
            }
        }
        r
    }

    /// The stack's top: its base plus its size.
    pub fn top(&self) -> (r: usize)
        requires
            self.wf(),
        ensures
            r == self.top_spec(),
    {
        self.base + self.size
    }
}

/// A kernel stack's top is its base plus its size, and is 16-byte aligned
/// whenever its size is a multiple of 16.
pub proof fn lemma_stack_top_aligned(s: &TaskStack)
    requires
        s.wf(),
        s.size_spec() % 16 == 0,
    ensures
        s.top_spec() == s.base_spec() + s.size_spec(),
        s.top_spec() % 16 == 0,
{
}

/// What a task control block holds, as seen by contracts.
pub struct SchedView {
    pub pid: Pid,
    pub tgid: Pid,
    /// Shared handle to the task's address space; `None` for a kernel-only task.
    pub pgd: Option<PageTable>,
    /// Address-space identity the task is bound to.
    pub mm_id: usize,
    /// Address-space identity currently loaded for the task.
    pub active_mm_id: usize,
    /// Handle of the one-shot entry closure, if any.
    pub entry: Option<usize>,
    pub kstack: Option<TaskStack>,
    /// Saved registers, touched only while the task is not running.
    pub thread: TaskContext,
}

impl SchedView {
    /// A stack is present, well formed and high enough to hold a trap frame.
    pub open spec fn has_stack(&self) -> bool {
        &&& self.kstack is Some
        &&& self.kstack->Some_0.wf()
        &&& self.kstack->Some_0.top_spec() >= trapframe_offset()
    }

    /// Address of the trap frame of a task with a stack.
    pub open spec fn pt_regs_spec(&self) -> nat {
        (self.kstack->Some_0.top_spec() - trapframe_offset()) as nat
    }
}

/// The block `SchedInfo::new(pid)` creates.
pub open spec fn fresh_block(pid: Pid) -> SchedView {
    SchedView {
        pid,
        tgid: pid,
        pgd: None,
        mm_id: 0,
        active_mm_id: 0,
        entry: None,
        kstack: None,
        thread: TaskContext::new_spec(),
    }
}

/// `child` and `a1` are what duplicating `parent` for `pid` with stacks from
/// `a0` gives.
pub open spec fn dup_post(parent: SchedView, pid: Pid, a0: StackArena, child: SchedView, a1: StackArena) -> bool {
    &&& child == (SchedView {
        pid,
        tgid: pid,
        pgd: parent.pgd,
        mm_id: 0,
        active_mm_id: 0,
        entry: None,
        kstack: child.kstack,
        thread: TaskContext::new_spec(),
    })
    &&& child.has_stack()
    &&& alloc_post(a0, task_stack_size(), &child.kstack->Some_0, a1)
}

/// `s1` and `a1` are what resetting `s0` with `entry`, `entry_func` and `tls`
/// with a stack from `a0` gives.
pub open spec fn reset_post(
    s0: SchedView,
    entry: Option<usize>,
    entry_func: usize,
    tls: usize,
    a0: StackArena,
    s1: SchedView,
    a1: StackArena,
) -> bool {
    &&& s1 == (SchedView {
        entry,
        kstack: s1.kstack,
        thread: TaskContext { ra: entry_func, sp: s1.pt_regs_spec() as usize, tp: tls },
        ..s0
    })
    &&& s1.has_stack()
    &&& exists|mid: StackArena| #[trigger] alloc_post(a0, task_stack_size(), &s1.kstack->Some_0, mid) && match s0.kstack {
        Some(old_stack) => release_post(mid, old_stack, a1),
        None => a1 == mid,
    }
}

/// The per-task record: identity, address-space binding, kernel stack and
/// saved register state.
pub struct SchedInfo {
    v: SchedView,
}

impl View for SchedInfo {
    type V = SchedView;

    closed spec fn view(&self) -> SchedView {
        self.v
    }
}

impl SchedInfo {
    /// A fresh block: `tgid == pid`, no address space, no stack, zeroed context.
    pub fn new(pid: Pid) -> (r: SchedInfo)
        ensures
            r@ == fresh_block(pid),
    {
        SchedInfo {
            v: SchedView {
                pid,
                tgid: pid,
                pgd: None,
                mm_id: 0,
                active_mm_id: 0,
                entry: None,
                kstack: None,
                thread: TaskContext::new(),
            },
        }
    }

    pub fn pid(&self) -> (r: Pid)
        ensures
            r == self@.pid,
    {
        self.v.pid
    }

    pub fn tgid(&self) -> (r: Pid)
        ensures
            r == self@.tgid,
    {
        self.v.tgid
    }

    /// A new handle to the bound address space, if any.
    pub fn try_pgd(&self) -> (r: Option<PageTable>)
        ensures
            r == self@.pgd,
    {
        self.v.pgd
    }

    /// Binds the task to `pgd`, replacing any earlier binding as a whole.
    pub fn set_pgd(&mut self, pgd: Option<PageTable>)
        requires
            pgd is Some ==> pgd->Some_0.root % PAGE_SIZE_4K == 0,
        ensures
            final(self)@ == (SchedView { pgd, ..old(self)@ }),
    {
        self.v.pgd = pgd;
    }

    pub fn mm_id(&self) -> (r: usize)
        ensures
            r == self@.mm_id,
    {
        self.v.mm_id
    }

    pub fn set_mm_id(&mut self, mm_id: usize)
        ensures
            final(self)@ == (SchedView { mm_id, ..old(self)@ }),
    {
        self.v.mm_id = mm_id;
    }

    pub fn active_mm_id(&self) -> (r: usize)
        ensures
            r == self@.active_mm_id,
    {
        self.v.active_mm_id
    }

    pub fn set_active_mm_id(&mut self, active_mm_id: usize)
        ensures
            final(self)@ == (SchedView { active_mm_id, ..old(self)@ }),
    {
        self.v.active_mm_id = active_mm_id;
    }

    /// The handle of the entry closure.
    pub fn entry_handle(&self) -> (r: Option<usize>)
        ensures
            r == self@.entry,
    {
        self.v.entry
    }

    /// Removes the kernel stack from the block, handing it to the caller
    /// (to give back to its arena when the block is destroyed).
    pub fn take_kstack(&mut self) -> (r: Option<TaskStack>)
        ensures
            r == old(self)@.kstack,
            final(self)@ == (SchedView { kstack: None, ..old(self)@ }),
    {
        self.v.kstack.take()
    }

    /// The saved register context.
    pub fn thread(&self) -> (r: TaskContext)
        ensures
            r == self@.thread,
    {
        self.v.thread
    }

    /// The top of the kernel stack, if one is allocated.
    pub fn stack_top(&self) -> (r: Option<usize>)
        requires
            self@.kstack is Some ==> self@.kstack->Some_0.wf(),
        ensures
            r == match self@.kstack {
                Some(s) => Some(s.top_spec() as usize),
                None => None,
            },
    {
        match &self.v.kstack {
            Some(s) => Some(s.top()),
            None => None,
        }
    }

    /// A child block for `pid` that shares this block's address space, has a
    /// fresh kernel stack and both address-space identities at zero. The
    /// saved context is not copied.
    pub fn dup_sched_info(&self, pid: Pid, arena: &mut StackArena) -> (r: SchedInfo)
        requires
            old(arena).wf(),
            old(arena).can_fit(task_stack_size()),
        ensures
            dup_post(self@, pid, *old(arena), r@, *final(arena)),
    {
        let mut info = SchedInfo::new(pid);
        let size = align_up_4k(THREAD_SIZE);
        info.v.kstack = Some(TaskStack::allocate(arena, size));
        info.v.pgd = self.v.pgd;
        info.v.mm_id = 0;
        info.v.active_mm_id = 0;
        info
    }

    /// Address of the trap-frame save slot at the top of the kernel stack.
    pub fn pt_regs(&self) -> (r: usize)
        requires
            self@.has_stack(),
        ensures
            r == self@.pt_regs_spec(),
    {
        let top = match &self.v.kstack {
            Some(s) => s.top(),
            None => 0,
        };
        top - align_down(TRAPFRAME_SIZE, STACK_ALIGN)
    }

    /// The saved register context, for the switch routine only.
    pub fn ctx_mut_ptr(&mut self) -> (r: &mut TaskContext)
        ensures
            *r == old(self)@.thread,
            final(self)@ == (SchedView { thread: *final(r), ..old(self)@ }),
    {
        &mut self.v.thread
    }

    /// Gives the task a fresh kernel stack and a context that begins at
    /// `entry_func` on the trap-frame slot of that stack, with thread pointer
    /// `tls`. A stack the task had before is given back to `arena` once the
    /// new one is taken, so the two never coincide.
    pub fn reset(&mut self, entry: Option<usize>, entry_func: usize, tls: usize, arena: &mut StackArena)
        requires
            old(arena).wf(),
            old(arena).can_fit(task_stack_size()),
        ensures
            reset_post(old(self)@, entry, entry_func, tls, *old(arena), final(self)@, *final(arena)),
    {
        self.v.entry = entry;
        let size = align_up_4k(THREAD_SIZE);
        let old_stack = self.v.kstack.take();
        let ghost a0 = *arena;
        let new_stack = TaskStack::allocate(arena, size);
        let ghost mid = *arena;
        self.v.kstack = Some(new_stack);
        match old_stack {
            Some(st) => {
                arena.release(st);
            },
            None => {},
        }
        let sp = self.pt_regs();
        self.v.thread.init(entry_func, sp, tls);
    }
}

/// `h1` is `h0` after `switch_mm` from identity `prev` to `next` with `pt`.
pub open spec fn switch_mm_post(h0: HartState, prev: usize, next: usize, pt: PageTable, h1: HartState) -> bool {
    if prev == next || h0.root == pt.root {
        h1 == h0
    } else {
        h1 == (HartState { root: pt.root, tlb_flushes: bump(h0.tlb_flushes), ..h0 })
    }
}

/// Loads `next_pgd` unless the outgoing and incoming address-space
/// identities are the same.
pub fn switch_mm(hart: &mut Hart, prev_mm_id: usize, next_mm_id: usize, next_pgd: &PageTable)
    requires
        next_pgd.root % PAGE_SIZE_4K == 0,
    ensures
        switch_mm_post(old(hart)@, prev_mm_id, next_mm_id, *next_pgd, final(hart)@),
{
    if prev_mm_id == next_mm_id {
        return;
    }
    write_page_table_root(hart, next_pgd.root_paddr());
}

/// Every block is created with its thread-group id equal to its process id,
/// by `SchedInfo::new` and by `SchedInfo::dup_sched_info` alike.
pub proof fn lemma_created_tgid_is_pid(
    pid: Pid,
    parent: SchedView,
    a0: StackArena,
    child: SchedView,
    a1: StackArena,
)
    ensures
        fresh_block(pid).tgid == fresh_block(pid).pid,
        dup_post(parent, pid, a0, child, a1) ==> child.tgid == child.pid,
{
}

/// Switching between equal address-space identities changes nothing: no
/// root is written and no TLB invalidation is issued.
pub proof fn lemma_switch_mm_same_id(h0: HartState, a: usize, pt: PageTable, h1: HartState)
    requires
        switch_mm_post(h0, a, a, pt, h1),
    ensures
        h1 == h0,
        h1.root == h0.root,
        h1.tlb_flushes == h0.tlb_flushes,
{
}

/// Switching between different address-space identities leaves the
/// handle's root loaded.
pub proof fn lemma_switch_mm_loads_root(h0: HartState, a: usize, b: usize, pt: PageTable, h1: HartState)
    requires
        a != b,
        switch_mm_post(h0, a, b, pt, h1),
    ensures
        h1.root == pt.root,
{
}

/// A duplicated block shares its parent's address-space handle and gets a
/// kernel stack of its own: when the parent's stack came from the same arena
/// earlier, the child's stack shares no byte with it and its top differs.
/// Its address-space identities are both zero, whatever the parent's.
pub proof fn lemma_dup_shares_pgd_fresh_stack(
    parent: SchedView,
    pid: Pid,
    a0: StackArena,
    child: SchedView,
    a1: StackArena,
)
    requires
        dup_post(parent, pid, a0, child, a1),
        parent.kstack is Some,
        parent.kstack->Some_0.wf(),
        parent.kstack->Some_0.size_spec() > 0,
        a0.holds(&parent.kstack->Some_0),
    ensures
        child.pgd == parent.pgd,
        disjoint(&parent.kstack->Some_0, &child.kstack->Some_0),
        child.kstack->Some_0.top_spec() != parent.kstack->Some_0.top_spec(),
        child.mm_id == 0,
        child.active_mm_id == 0,
{
}

/// Resetting a block whose stack came from the same arena earlier gives it a
/// new stack that shares no byte with the old one, and gives the old one back:
/// its region is the latest free region of the arena. The block's identity,
/// address space and address-space identities are kept.
pub proof fn lemma_reset_fresh_stack(
    s0: SchedView,
    entry: Option<usize>,
    entry_func: usize,
    tls: usize,
    a0: StackArena,
    s1: SchedView,
    a1: StackArena,
)
    requires
        reset_post(s0, entry, entry_func, tls, a0, s1, a1),
        s0.kstack is Some,
        a0.holds(&s0.kstack->Some_0),
    ensures
        disjoint(&s0.kstack->Some_0, &s1.kstack->Some_0),
        a1.free_spec().len() > 0,
        a1.free_spec().last() == (s0.kstack->Some_0.base_spec() as usize, s0.kstack->Some_0.size_spec() as usize),
        s1.pid == s0.pid,
        s1.tgid == s0.tgid,
        s1.pgd == s0.pgd,
        s1.mm_id == s0.mm_id,
        s1.active_mm_id == s0.active_mm_id,
{
}

/// A task that was reset and is then switched to resumes at `entry_func`, on
/// the stack pointer that `pt_regs` gives for it, with thread pointer `tls`.
pub proof fn lemma_reset_then_resume(
    s0: SchedView,
    entry: Option<usize>,
    entry_func: usize,
    tls: usize,
    a0: StackArena,
    s1: SchedView,
    a1: StackArena,
    h0: HartState,
    h1: HartState,
)
    requires
        reset_post(s0, entry, entry_func, tls, a0, s1, a1),
        resumed(h0, s1.thread, h1),
    ensures
        h1.pc == entry_func,
        h1.sp == s1.pt_regs_spec(),
        h1.tp == tls,
{
}

} // verus!
