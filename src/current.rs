//! The current-task registry: task blocks live in a [`TaskTable`] with a count
//! of strong references each, and the hart's per-CPU slot holds one of them.
//!
//! A [`CtxRef`] is a strong reference. A [`CurrentCtx`] is a view of the
//! reference the slot holds: reading the current task never releases it, and
//! [`CurrentCtx::set_current`] is the one place where the slot's reference is
//! exchanged.

use vstd::prelude::*;
use crate::arch::{Hart, HartState, TaskContext};
use crate::task::{switch_mm, SchedInfo, SchedView};

verus! {

/// A strong reference to a task block in a [`TaskTable`].
pub struct CtxRef {
    idx: usize,
}

impl CtxRef {
    pub closed spec fn id(&self) -> nat {
        self.idx as nat
    }

    /// The index of the referenced block.
    pub fn index(&self) -> (r: usize)
        ensures
            r == self.id(),
    {
        self.idx
    }
}

/// The id of every task reference fits in `usize`.
pub proof fn lemma_ctx_id_fits(r: &CtxRef)
    ensures
        r.id() <= usize::MAX,
{
}

/// The id of every view of the current task fits in `usize`.
pub proof fn lemma_current_id_fits(c: &CurrentCtx)
    ensures
        c.id() <= usize::MAX,
{
}

struct Slot {
    info: SchedInfo,
    strong: usize,
}

/// One entry of a table: the block and its number of strong references.
pub type SlotView = Option<(SchedView, nat)>;

spec fn slot_view(s: Option<Slot>) -> SlotView {
    match s {
        Some(s) => Some((s.info@, s.strong as nat)),
        None => None,
    }
}

/// The task blocks of the kernel, each kept alive while it has a strong
/// reference.
pub struct TaskTable {
    slots: Vec<Option<Slot>>,
}

impl View for TaskTable {
    type V = Seq<SlotView>;

    closed spec fn view(&self) -> Seq<SlotView> {
        self.slots@.map_values(|s: Option<Slot>| slot_view(s))
    }
}

/// The block at `i` is allocated.
pub open spec fn live(t: Seq<SlotView>, i: nat) -> bool {
    i < t.len() && t[i as int] is Some
}

/// The number of strong references to the block at `i`.
pub open spec fn strong(t: Seq<SlotView>, i: nat) -> nat {
    t[i as int]->Some_0.1
}

/// The block at `i`.
pub open spec fn block(t: Seq<SlotView>, i: nat) -> SchedView {
    t[i as int]->Some_0.0
}

/// `t` after one more strong reference to the block at `i`.
pub open spec fn acquired(t: Seq<SlotView>, i: nat) -> Seq<SlotView> {
    t.update(i as int, Some((block(t, i), strong(t, i) + 1)))
}

/// `t` after one strong reference to the block at `i` is released: the block
/// is freed when it was the last one.
pub open spec fn released(t: Seq<SlotView>, i: nat) -> Seq<SlotView> {
    if strong(t, i) <= 1 {
        t.update(i as int, None)
    } else {
        t.update(i as int, Some((block(t, i), (strong(t, i) - 1) as nat)))
    }
}

/// Every allocated block has at least one strong reference.
pub open spec fn table_wf(t: Seq<SlotView>) -> bool {
    forall|i: nat| #[trigger] live(t, i) ==> strong(t, i) >= 1
}

impl TaskTable {
    /// An empty table.
    pub fn new() -> (r: TaskTable)
        ensures
            r@ == Seq::<SlotView>::empty(),
            table_wf(r@),
    {
        TaskTable { slots: Vec::new() }
    }

    /// Stores `info` and returns the first strong reference to it.
    pub fn spawn(&mut self, info: SchedInfo) -> (r: CtxRef)
        ensures
            r.id() == old(self)@.len(),
            final(self)@ == old(self)@.push(Some((info@, 1nat))),
            table_wf(old(self)@) ==> table_wf(final(self)@),
    {
        let idx = self.slots.len();
        let ghost before = self.slots@;
        self.slots.push(Some(Slot { info, strong: 1 }));
        proof {
            assert(self@ =~= before.map_values(|s: Option<Slot>| slot_view(s)).push(
                Some((info@, 1nat)),
            ));
        }
        proof {
            if table_wf(old(self)@) {
                assert forall|i: nat| #[trigger] live(self@, i) implies strong(self@, i) >= 1 by {
                    if i < old(self)@.len() {
                        assert(live(old(self)@, i));
                    }
                }
            }
        }
        CtxRef { idx }
    }

    /// Whether the block at `idx` is allocated.
    pub fn is_live(&self, idx: usize) -> (r: bool)
        ensures
            r == live(self@, idx as nat),
    {
        idx < self.slots.len() && self.slots[idx].is_some()
    }

    /// The number of strong references to the block at `idx`; 0 when it is freed.
    pub fn strong_count(&self, idx: usize) -> (r: usize)
        ensures
            live(self@, idx as nat) ==> r == strong(self@, idx as nat),
            !live(self@, idx as nat) ==> r == 0,
    {
        if idx < self.slots.len() {
            match &self.slots[idx] {
                Some(s) => s.strong,
                None => 0,
            }
        } else {
            0
        }
    }

    /// The block `r` refers to.
    pub fn get(&self, r: &CtxRef) -> (info: &SchedInfo)
        requires
            live(self@, r.id()),
        ensures
            info@ == block(self@, r.id()),
    {
        match &self.slots[r.idx] {
            Some(s) => &s.info,
            None => vstd::pervasive::unreached(),
        }
    }

    fn take_slot(&mut self, i: usize) -> (s: Slot)
        requires
            live(old(self)@, i as nat),
        ensures
            (Some((s.info@, s.strong as nat)) == old(self)@[i as int]),
            final(self)@ == old(self)@.update(i as int, None),
    {
        let mut tmp: Option<Slot> = None;
        std::mem::swap(&mut tmp, &mut self.slots[i]);
        proof {
            assert(self@ =~= old(self)@.update(i as int, None));
        }
        match tmp {
            Some(s) => s,
            None => vstd::pervasive::unreached(),
        }
    }

    fn put_slot(&mut self, i: usize, s: Slot)
        requires
            i < old(self)@.len(),
        ensures
            final(self)@ == old(self)@.update(i as int, Some((s.info@, s.strong as nat))),
    {
        let ghost v = Some((s.info@, s.strong as nat));
        self.slots.set(i, Some(s));
        proof {
            assert(self@ =~= old(self)@.update(i as int, v));
        }
    }

    /// A new strong reference to the block `r` refers to.
    pub fn clone_ref(&mut self, r: &CtxRef) -> (c: CtxRef)
        requires
            live(old(self)@, r.id()),
            strong(old(self)@, r.id()) < usize::MAX,
        ensures
            c.id() == r.id(),
            final(self)@ == acquired(old(self)@, r.id()),
            table_wf(old(self)@) ==> table_wf(final(self)@),
    {
        let mut s = self.take_slot(r.idx);
        s.strong = s.strong + 1;
        self.put_slot(r.idx, s);
        proof {
            if table_wf(old(self)@) {
                assert forall|i: nat| #[trigger] live(self@, i) implies strong(self@, i) >= 1 by {
                    if i != r.id() {
                        assert(live(old(self)@, i));
                    }
                }
            }
        }
        CtxRef { idx: r.idx }
    }

    /// Gives up the strong reference `r`. When no other strong reference
    /// remains, the block leaves the table and is handed back, once, so that
    /// its kernel stack can be returned to its arena.
    pub fn release(&mut self, r: CtxRef) -> (freed: Option<SchedInfo>)
        requires
            live(old(self)@, r.id()),
        ensures
            final(self)@ == released(old(self)@, r.id()),
            freed is Some <==> strong(old(self)@, r.id()) <= 1,
            freed is Some ==> freed->Some_0@ == block(old(self)@, r.id()),
            table_wf(old(self)@) ==> table_wf(final(self)@),
    {
        let mut s = self.take_slot(r.idx);
        let freed = if s.strong > 1 {
            s.strong = s.strong - 1;
            self.put_slot(r.idx, s);
            None
        } else {
            Some(s.info)
        };
        proof {
            if table_wf(old(self)@) {
                assert forall|i: nat| #[trigger] live(self@, i) implies strong(self@, i) >= 1 by {
                    if i != r.id() {
                        assert(live(old(self)@, i));
                    }
                }
            }
        }
        freed
    }

    /// Switches the hart from the task it runs, `prev`, to `next`: saves the
    /// hart's registers into `prev`, exchanges the current-task slot, loads
    /// `next`'s address space unless the identity loaded for `prev` is the
    /// one `next` is bound to, and resumes `next`'s saved context. Returns
    /// `prev`'s block when the slot held its last strong reference.
    pub fn switch_to(&mut self, hart: &mut Hart, prev: CurrentCtx, next: &CtxRef) -> (freed: Option<SchedInfo>)
        requires
            old(hart)@.current == Some(prev.id() as usize),
            live(old(self)@, prev.id()),
            live(old(self)@, next.id()),
            prev.id() != next.id(),
            strong(old(self)@, next.id()) < usize::MAX,
            block(old(self)@, next.id()).pgd is Some ==> block(old(self)@, next.id()).pgd->Some_0.root % 4096 == 0,
        ensures
            ({
                let t0 = old(self)@;
                let p = block(t0, prev.id());
                let n = block(t0, next.id());
                let saved = TaskContext { ra: old(hart)@.pc, sp: old(hart)@.sp, tp: old(hart)@.tp };
                let t1 = t0.update(prev.id() as int, Some((SchedView { thread: saved, ..p }, strong(t0, prev.id()))));
                let t2 = released(acquired(t1, next.id()), prev.id());
                let h1 = HartState { current: Some(next.id() as usize), ..old(hart)@ };
                let h2 = match n.pgd {
                    Some(pt) => if p.active_mm_id == n.mm_id || h1.root == pt.root {
                        h1
                    } else {
                        HartState { root: pt.root, tlb_flushes: crate::arch::bump(h1.tlb_flushes), ..h1 }
                    },
                    None => h1,
                };
                let n2 = match n.pgd {
                    Some(_) => SchedView { active_mm_id: n.mm_id, ..n },
                    None => n,
                };
                &&& final(self)@ == t2.update(next.id() as int, Some((n2, strong(t2, next.id()))))
                &&& final(hart)@ == (HartState { pc: n.thread.ra, sp: n.thread.sp, tp: n.thread.tp, ..h2 })
                &&& (freed is Some <==> strong(t0, prev.id()) <= 1)
                &&& (freed is Some ==> freed->Some_0@ == block(t1, prev.id()))
            }),
    {
        let mut p = self.take_slot(prev.0.idx);
        let (pc, sp) = hart.pc_sp();
        let tp = crate::arch::read_thread_pointer(hart);
        p.info.ctx_mut_ptr().init(pc, sp, tp);
        let prev_active = p.info.active_mm_id();
        self.put_slot(prev.0.idx, p);
        let freed = CurrentCtx::set_current(hart, self, prev, next);
        let mut n = self.take_slot(next.idx);
        match n.info.try_pgd() {
            Some(pt) => {
                let mm = n.info.mm_id();
                switch_mm(hart, prev_active, mm, &pt);
                n.info.set_active_mm_id(mm);
            },
            None => {},
        }
        let ctx = n.info.thread();
        self.put_slot(next.idx, n);
        hart.load_context(ctx.ra, ctx.sp, ctx.tp);
        freed
    }
}

/// A view of the strong reference held by the hart's current-task slot. It
/// never releases that reference by itself.
pub struct CurrentCtx(CtxRef);

impl CurrentCtx {
    pub closed spec fn id(&self) -> nat {
        self.0.idx as nat
    }

    /// The task published in the hart's slot, or `None` before any is.
    pub fn try_get(hart: &Hart) -> (r: Option<CurrentCtx>)
        ensures
            hart@.current is None ==> r is None,
            hart@.current is Some ==> r is Some && r->Some_0.id() == hart@.current->Some_0,
    {
        match hart.current_task_ptr() {
            Some(idx) => Some(CurrentCtx(CtxRef { idx })),
            None => None,
        }
    }

    /// The task published in the hart's slot, which must be there.
    pub fn get(hart: &Hart) -> (r: CurrentCtx)
        requires
            hart@.current is Some,
        ensures
            r.id() == hart@.current->Some_0,
    {
        match Self::try_get(hart) {
            Some(c) => c,
            None => vstd::pervasive::unreached(),
        }
    }

    /// Whether `self` and `other` refer to the same block.
    pub fn ptr_eq(&self, other: &CtxRef) -> (r: bool)
        ensures
            r == (self.id() == other.id()),
    {
        self.0.idx == other.idx
    }

    /// The strong reference this view stands for.
    pub fn as_task_ref(&self) -> (r: &CtxRef)
        ensures
            r.id() == self.id(),
    {
        &self.0
    }

    /// Exchanges the hart's current task: one more strong reference to `next`
    /// is published in the slot, and the reference the slot held for `prev` is
    /// released. When that was `prev`'s last one, its block is handed back.
    pub fn set_current(hart: &mut Hart, table: &mut TaskTable, prev: CurrentCtx, next: &CtxRef) -> (freed: Option<SchedInfo>)
        requires
            old(hart)@.current == Some(prev.id() as usize),
            live(old(table)@, prev.id()),
            live(old(table)@, next.id()),
            strong(old(table)@, next.id()) < usize::MAX,
        ensures
            next.id() <= usize::MAX,
            final(hart)@ == (HartState { current: Some(next.id() as usize), ..old(hart)@ }),
            final(table)@ == released(acquired(old(table)@, next.id()), prev.id()),
            freed is Some <==> strong(acquired(old(table)@, next.id()), prev.id()) <= 1,
            freed is Some ==> freed->Some_0@ == block(old(table)@, prev.id()),
    {
        let published = table.clone_ref(next);
        let CurrentCtx(held) = prev;
        let freed = table.release(held);
        hart.set_current_task_ptr(published.idx);
        freed
    }
}

/// After the slot moves from `prev` to another task `next`, the slot shows
/// `next`, which has gained one strong reference. `prev` stays allocated,
/// with one strong reference fewer, exactly when some other strong reference
/// to it remains, and is freed once none does. Every allocated block keeps at
/// least one strong reference.
pub proof fn lemma_set_current_releases_prev(
    h0: HartState,
    t0: Seq<SlotView>,
    prev: nat,
    next: nat,
    h1: HartState,
    t1: Seq<SlotView>,
)
    requires
        table_wf(t0),
        live(t0, prev),
        live(t0, next),
        prev != next,
        h1 == (HartState { current: Some(next as usize), ..h0 }),
        t1 == released(acquired(t0, next), prev),
    ensures
        h1.current == Some(next as usize),
        live(t1, next),
        strong(t1, next) == strong(t0, next) + 1,
        live(t1, prev) <==> strong(t0, prev) > 1,
        live(t1, prev) ==> strong(t1, prev) == strong(t0, prev) - 1,
        live(t1, prev) ==> block(t1, prev) == block(t0, prev),
        table_wf(t1),
{
    assert forall|i: nat| #[trigger] live(t1, i) implies strong(t1, i) >= 1 by {
        assert(live(t0, i));
    }
}

/// Publishes the first task on a hart whose slot is still empty; the slot
/// takes one more strong reference to it.
pub fn init_current(hart: &mut Hart, table: &mut TaskTable, first: &CtxRef)
    requires
        old(hart)@.current is None,
        live(old(table)@, first.id()),
        strong(old(table)@, first.id()) < usize::MAX,
    ensures
        final(hart)@ == (HartState { current: Some(first.id() as usize), ..old(hart)@ }),
        final(table)@ == acquired(old(table)@, first.id()),
{
    let published = table.clone_ref(first);
    hart.set_current_task_ptr(published.idx);
}

/// The current task, which must have been published.
pub fn current_ctx(hart: &Hart) -> (r: CurrentCtx)
    requires
        hart@.current is Some,
    ensures
        r.id() == hart@.current->Some_0,
{
    CurrentCtx::get(hart)
}

/// The current task, or `None` before one is published.
pub fn try_current_ctx(hart: &Hart) -> (r: Option<CurrentCtx>)
    ensures
        hart@.current is None ==> r is None,
        hart@.current is Some ==> r is Some && r->Some_0.id() == hart@.current->Some_0,
{
    CurrentCtx::try_get(hart)
}

} // verus!
