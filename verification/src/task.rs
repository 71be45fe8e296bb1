//! The task control block, the fixed task pool and its round-robin scheduler.
//!
//! The scheduler decides; it does not switch. A decision comes back as a
//! [`NextTask`], and whoever drives the kernel performs the register-level
//! transfer between the two contexts it names, after letting go of the pool.

use crate::address::{page_ceil, PhysPageNum, VirtAddr};
use crate::frame_allocator::StackFrameAllocator;
use crate::memory_set::{
    area_pages, maps_range, mmap_accepts, mmap_spec, munmap_accepts, munmap_spec, pages_spanned,
    unmaps_range, AddressSpace, MemorySet,
};
use crate::page_table::{user_flags, PTEFlags};
use std::collections::BTreeMap;
use vstd::prelude::*;

verus! {

/// Where a task stands in its life: `Ready`, then `Running`, then `Ready`
/// again or `Exited` for good.
#[derive(Clone, Copy, Debug, PartialEq, Eq, Structural)]
pub enum TaskStatus {
    Ready,
    Running,
    Exited,
}

/// The saved execution state of a task that is not running: return address,
/// stack pointer and the callee-saved registers.
#[derive(Clone, Copy, Debug)]
pub struct TaskContext {
    pub ra: usize,
    pub sp: usize,
    pub s: [usize; 12],
}

impl TaskContext {
    /// A context with every register zero.
    pub fn zero_init() -> (cx: TaskContext)
        ensures
            cx.ra == 0,
            cx.sp == 0,
            forall|i: int| 0 <= i < 12 ==> cx.s[i] == 0,
    {
        TaskContext { ra: 0, sp: 0, s: [0, 0, 0, 0, 0, 0, 0, 0, 0, 0, 0, 0] }
    }

    /// A context that resumes at `ra` on the stack `sp`.
    pub fn goto(ra: usize, sp: usize) -> (cx: TaskContext)
        ensures
            cx.ra == ra,
            cx.sp == sp,
            forall|i: int| 0 <= i < 12 ==> cx.s[i] == 0,
    {
        TaskContext { ra, sp, s: [0, 0, 0, 0, 0, 0, 0, 0, 0, 0, 0, 0] }
    }
}

/// What the scheduler decided.
#[derive(Clone, Copy, Debug, PartialEq, Eq, Structural)]
pub enum NextTask {
    /// Save the context of task `from` and resume task `to`.
    Switch { from: usize, to: usize },
    /// No task is ready: all applications completed, and the system halts.
    AllCompleted,
}

/// What a task is, mathematically.
pub struct TaskView {
    pub status: TaskStatus,
    pub context: TaskContext,
    pub space: AddressSpace,
    pub token: usize,
    pub trap_cx_ppn: PhysPageNum,
    pub heap_bottom: usize,
    pub program_brk: usize,
    /// System-call id to the number of times the task invoked it; an id
    /// that is not a key was never invoked.
    pub counts: Map<usize, isize>,
}

/// How often `id` was invoked according to `counts`.
pub open spec fn count_of(counts: Map<usize, isize>, id: usize) -> isize {
    if counts.contains_key(id) {
        counts[id]
    } else {
        0
    }
}

/// `counts` after one more invocation of `id`.
pub open spec fn bump(counts: Map<usize, isize>, id: usize) -> Map<usize, isize> {
    counts.insert(id, (count_of(counts, id) + 1) as isize)
}

/// `counts` after `k` more invocations of `id`.
pub open spec fn bump_times(counts: Map<usize, isize>, id: usize, k: nat) -> Map<usize, isize>
    decreases k,
{
    if k == 0 {
        counts
    } else {
        bump(bump_times(counts, id, (k - 1) as nat), id)
    }
}

/// After `k` invocations of `id` its count has grown by `k`, and the count
/// of every other id is what it was.
pub proof fn lemma_bump_times(counts: Map<usize, isize>, id: usize, k: nat)
    requires
        count_of(counts, id) + k <= isize::MAX,
    ensures
        count_of(bump_times(counts, id, k), id) == count_of(counts, id) + k,
        forall|other: usize|
            other != id ==> count_of(bump_times(counts, id, k), other) == count_of(counts, other),
    decreases k,
{
    if k > 0 {
        lemma_bump_times(counts, id, (k - 1) as nat);
    }
}

/// After exactly `k` invocations of `id` by a task that had invoked nothing,
/// the count of `id` is `k`.
pub proof fn lemma_count_from_start(id: usize, k: nat)
    requires
        k <= isize::MAX,
    ensures
        count_of(bump_times(Map::empty(), id, k), id) == k,
{
    lemma_bump_times(Map::empty(), id, k);
}

/// Counting a call of the current task adds one to that task's count of
/// the call and leaves every other task, and every other count, as it was.
pub proof fn lemma_bump_is_local(pre: KernelView, id: usize, task: int, other: usize)
    requires
        pre.current < pre.tasks.len(),
        0 <= task < pre.tasks.len(),
        count_of(pre.cur().counts, id) < isize::MAX,
    ensures
        count_of(pre.with_bump(id).cur().counts, id) == count_of(pre.cur().counts, id) + 1,
        other != id ==> count_of(pre.with_bump(id).cur().counts, other) == count_of(
            pre.cur().counts,
            other,
        ),
        task != pre.current ==> pre.with_bump(id).tasks[task] == pre.tasks[task],
{
}

/// The flags of a heap page: valid, readable, writable, user-accessible.
pub open spec fn heap_flags() -> PTEFlags {
    user_flags(3)
}

/// Whether moving the program break of `task` by `size` bytes is granted:
/// the new break stays at or above the heap's start and within the positive
/// addresses; growth needs every page it adds to be unmapped, shrinking
/// needs every page it gives up to be mapped.
pub open spec fn brk_accepts(task: TaskView, size: i32) -> bool {
    let target = task.program_brk + size;
    &&& task.heap_bottom <= target <= isize::MAX
    &&& if size >= 0 {
        task.space.range_unmapped(page_ceil(task.program_brk as int), page_ceil(target))
    } else {
        task.space.range_mapped(page_ceil(target), page_ceil(task.program_brk as int))
    }
}

/// How many frames a granted move of the break by `size` takes from the
/// pool; negative where it gives frames back.
pub open spec fn brk_frames(task: TaskView, size: i32) -> int {
    page_ceil(task.program_brk + size) - page_ceil(task.program_brk as int)
}

/// What `change_program_brk` returns and does to the task.
pub open spec fn brk_spec(pre: TaskView, post: TaskView, size: i32, ret: Option<usize>) -> bool {
    if brk_accepts(pre, size) {
        let target = pre.program_brk + size;
        &&& ret == Some(pre.program_brk)
        &&& post == (TaskView { program_brk: target as usize, space: post.space, ..pre })
        &&& if size >= 0 {
            maps_range(
                pre.space,
                post.space,
                page_ceil(pre.program_brk as int),
                page_ceil(target),
                heap_flags(),
            )
        } else {
            unmaps_range(
                pre.space,
                post.space,
                page_ceil(target),
                page_ceil(pre.program_brk as int),
            )
        }
    } else {
        ret.is_none() && post == pre
    }
}

/// The scheduler's record of one task.
pub struct TaskControlBlock {
    task_status: TaskStatus,
    task_cx: TaskContext,
    memory_set: MemorySet,
    trap_cx_ppn: PhysPageNum,
    heap_bottom: usize,
    program_brk: usize,
    syscall_times: BTreeMap<usize, isize>,
}

impl View for TaskControlBlock {
    type V = TaskView;

    closed spec fn view(&self) -> TaskView {
        TaskView {
            status: self.task_status,
            context: self.task_cx,
            space: self.memory_set@,
            token: self.memory_set.spec_token(),
            trap_cx_ppn: self.trap_cx_ppn,
            heap_bottom: self.heap_bottom,
            program_brk: self.program_brk,
            counts: self.syscall_times@,
        }
    }
}

impl TaskControlBlock {
    /// The address space is well-formed and the break lies between the
    /// heap's start and the top of the positive addresses.
    pub closed spec fn wf(&self) -> bool {
        &&& self.memory_set.wf()
        &&& self.heap_bottom <= self.program_brk <= isize::MAX
    }

    /// The address space of a well-formed task is consistent.
    pub proof fn lemma_space_consistent(&self)
        requires
            self.wf(),
        ensures
            self@.space.consistent(),
            self@.heap_bottom <= self@.program_brk <= isize::MAX,
    {
        self.memory_set.lemma_consistent();
    }

    /// A `Ready` task over `memory_set` whose heap is empty and starts at
    /// `heap_bottom`, and which has invoked no system call yet; `None` where
    /// `heap_bottom` is not a positive address.
    pub fn new(
        memory_set: MemorySet,
        trap_cx_ppn: PhysPageNum,
        heap_bottom: usize,
        task_cx: TaskContext,
    ) -> (task: Option<TaskControlBlock>)
        requires
            memory_set.wf(),
        ensures
            task.is_some() == (heap_bottom <= isize::MAX),
            task.is_some() ==> task.unwrap().wf() && task.unwrap()@ == (TaskView {
                status: TaskStatus::Ready,
                context: task_cx,
                space: memory_set@,
                token: memory_set.spec_token(),
                trap_cx_ppn,
                heap_bottom,
                program_brk: heap_bottom,
                counts: Map::empty(),
            }),
    {
        if heap_bottom > isize::MAX as usize {
            return None;
        }
        Some(
            TaskControlBlock {
                task_status: TaskStatus::Ready,
                task_cx,
                memory_set,
                trap_cx_ppn,
                heap_bottom,
                program_brk: heap_bottom,
                syscall_times: BTreeMap::new(),
            },
        )
    }

    /// The status of the task.
    pub fn status(&self) -> (status: TaskStatus)
        ensures
            status == self@.status,
    {
        self.task_status
    }

    /// The saved context of the task.
    pub fn context(&self) -> (cx: TaskContext)
        ensures
            cx == self@.context,
    {
        self.task_cx
    }

    /// The token of the task's address space.
    pub fn get_user_token(&self) -> (token: usize)
        ensures
            token == self@.token,
    {
        self.memory_set.token()
    }

    /// The frame that holds the task's trap context.
    pub fn get_trap_cx_ppn(&self) -> (ppn: PhysPageNum)
        ensures
            ppn == self@.trap_cx_ppn,
    {
        self.trap_cx_ppn
    }

    /// The current program break.
    pub fn program_brk(&self) -> (brk: usize)
        ensures
            brk == self@.program_brk,
    {
        self.program_brk
    }

    /// The task's address space.
    pub fn memory_set(&self) -> (set: &MemorySet)
        ensures
            set@ == self@.space,
            set.spec_token() == self@.token,
            self.wf() ==> set.wf(),
    {
        &self.memory_set
    }

    /// How often the task has invoked system call `id`.
    pub fn syscall_count(&self, id: usize) -> (count: isize)
        ensures
            count == count_of(self@.counts, id),
    {
        match self.syscall_times.get(&id) {
            Some(c) => *c,
            None => 0,
        }
    }

    /// How many frames moving the break by `size` bytes would take from the
    /// pool; 0 where the move would be refused or takes none.
    pub fn brk_frames_needed(&self, size: i32) -> (n: usize)
        requires
            self.wf(),
        ensures
            n == (if brk_accepts(self@, size) && brk_frames(self@, size) > 0 {
                brk_frames(self@, size)
            } else {
                0
            }),
    {
        if size < 0 {
            return 0;
        }
        let target = match self.program_brk.checked_add(size as usize) {
            Some(t) => t,
            None => {
                return 0;
            },
        };
        if target > isize::MAX as usize {
            return 0;
        }
        let first = VirtAddr(self.program_brk).ceil();
        let last = VirtAddr(target).ceil();
        if !self.memory_set.is_range_unmapped(first, last) {
            return 0;
        }
        last.0 - first.0
    }

    /// Moves the program break by `size` bytes, mapping the heap pages that
    /// the move adds and unmapping those it gives up, and returns the break
    /// as it was; `None`, with nothing changed, where the move is not
    /// granted. The pool must hold the frames of a granted growth.
    pub fn change_program_brk(&mut self, pool: &mut StackFrameAllocator, size: i32) -> (ret:
        Option<usize>)
        requires
            old(self).wf(),
            old(pool).wf(),
            brk_accepts(old(self)@, size) ==> old(pool).free_count() >= brk_frames(old(self)@, size),
        ensures
            final(self).wf(),
            final(pool).wf(),
            brk_spec(old(self)@, final(self)@, size, ret),
            final(pool).free_count() == old(pool).free_count() - (if brk_accepts(
                old(self)@,
                size,
            ) {
                brk_frames(old(self)@, size)
            } else {
                0
            }),
    {
        let old_brk = self.program_brk;
        if size >= 0 {
            let grow = size as usize;
            let target = match old_brk.checked_add(grow) {
                Some(t) => t,
                None => {
                    return None;
                },
            };
            if target > isize::MAX as usize {
                return None;
            }
            let first = VirtAddr(old_brk).ceil();
            let last = VirtAddr(target).ceil();
            if !self.memory_set.is_range_unmapped(first, last) {
                return None;
            }
            self.memory_set.map_range(
                pool,
                first,
                last,
                PTEFlags {
                    valid: true,
                    readable: true,
                    writable: true,
                    executable: false,
                    user: true,
                },
            );
            self.program_brk = target;
            Some(old_brk)
        } else {
            let shrink = (-(size as i64)) as usize;
            if shrink > old_brk - self.heap_bottom {
                return None;
            }
            let target = old_brk - shrink;
            let first = VirtAddr(target).ceil();
            let last = VirtAddr(old_brk).ceil();
            if !self.memory_set.is_range_mapped(first, last) {
                return None;
            }
            self.memory_set.unmap_range(pool, first, last);
            self.program_brk = target;
            Some(old_brk)
        }
    }
}


/// What the kernel core is, mathematically: the task pool, the index of the
/// current task, and how many frames the pool can still hand out.
pub struct KernelView {
    pub tasks: Seq<TaskView>,
    pub current: usize,
    pub free_frames: nat,
}

impl KernelView {
    /// The current task.
    pub open spec fn cur(self) -> TaskView {
        self.tasks[self.current as int]
    }

    /// This state with the current task replaced by `task`.
    pub open spec fn with_cur(self, task: TaskView) -> KernelView {
        KernelView { tasks: self.tasks.update(self.current as int, task), ..self }
    }

    /// This state with the status of the current task set to `status`.
    pub open spec fn with_status(self, status: TaskStatus) -> KernelView {
        self.with_cur(TaskView { status, ..self.cur() })
    }

    /// This state after the current task has exited: its status is
    /// `Exited`, its address space is torn down, and the frames behind its
    /// pages are back in the pool.
    pub open spec fn after_exit(self) -> KernelView {
        KernelView {
            tasks: self.tasks.update(
                self.current as int,
                (TaskView {
                    status: TaskStatus::Exited,
                    space: AddressSpace::emptied(),
                    ..self.cur()
                }),
            ),
            free_frames: (self.free_frames + area_pages(self.cur().space.areas)) as nat,
            ..self
        }
    }

    /// This state after the current task has invoked system call `id` once more.
    pub open spec fn with_bump(self, id: usize) -> KernelView {
        self.with_cur(TaskView { counts: bump(self.cur().counts, id), ..self.cur() })
    }

    /// `post` differs from this state at most in the address space of the
    /// current task and in the number of free frames.
    pub open spec fn only_space_changed(self, post: KernelView) -> bool {
        &&& post.current == self.current
        &&& post.tasks == self.tasks.update(
            self.current as int,
            (TaskView { space: post.cur().space, ..self.cur() }),
        )
    }
}

/// The index that the scheduler looks at in step `k` of its scan over `n`
/// tasks: `k` places after `current`, wrapping round.
pub open spec fn slot(n: int, current: int, k: int) -> int {
    (current + k) % n
}

/// `next` is the first `Ready` task met when scanning from the task after
/// `current` round to `current` itself.
pub open spec fn is_first_ready(tasks: Seq<TaskView>, current: int, next: int) -> bool {
    exists|k: int|
        {
            &&& 1 <= k <= tasks.len()
            &&& next == #[trigger] slot(tasks.len() as int, current, k)
            &&& tasks[next].status == TaskStatus::Ready
            &&& forall|j: int|
                1 <= j < k ==> tasks[#[trigger] slot(tasks.len() as int, current, j)].status
                    != TaskStatus::Ready
        }
}

/// No task is `Ready`.
pub open spec fn none_ready(tasks: Seq<TaskView>) -> bool {
    forall|i: int| 0 <= i < tasks.len() ==> (#[trigger] tasks[i]).status != TaskStatus::Ready
}

/// What `run_next_task` decides and does: the first `Ready` task in scan
/// order becomes `Running` and current; where there is none, nothing changes.
pub open spec fn run_next_spec(pre: KernelView, post: KernelView, decision: NextTask) -> bool {
    match decision {
        NextTask::Switch { from, to } => {
            &&& from == pre.current
            &&& to < pre.tasks.len()
            &&& is_first_ready(pre.tasks, pre.current as int, to as int)
            &&& post == (KernelView {
                tasks: pre.tasks.update(
                    to as int,
                    (TaskView { status: TaskStatus::Running, ..pre.tasks[to as int] }),
                ),
                current: to,
                ..pre
            })
        },
        NextTask::AllCompleted => none_ready(pre.tasks) && post == pre,
    }
}

/// What mapping does to the kernel: to the current task's address space what
/// `mmap` does, to the pool the loss of the frames, and nothing else.
pub open spec fn task_mmap_spec(
    pre: KernelView,
    post: KernelView,
    start: usize,
    len: usize,
    prot: usize,
    ret: isize,
) -> bool {
    &&& pre.only_space_changed(post)
    &&& mmap_spec(pre.cur().space, post.cur().space, start, len, prot, ret)
    &&& post.free_frames == pre.free_frames - (if mmap_accepts(pre.cur().space, start, len, prot) {
        pages_spanned(start, len)
    } else {
        0
    })
}

/// What unmapping does to the kernel: to the current task's address space
/// what `unmmap` does, to the pool the gain of the frames, and nothing else.
pub open spec fn task_munmap_spec(
    pre: KernelView,
    post: KernelView,
    start: usize,
    len: usize,
    ret: isize,
) -> bool {
    &&& pre.only_space_changed(post)
    &&& munmap_spec(pre.cur().space, post.cur().space, start, len, ret)
    &&& post.free_frames == pre.free_frames + (if munmap_accepts(pre.cur().space, start, len) {
        pages_spanned(start, len)
    } else {
        0
    })
}

/// What moving the break does to the kernel: to the current task what
/// `change_program_brk` does, to the pool the frames, and nothing else.
pub open spec fn task_brk_spec(pre: KernelView, post: KernelView, size: i32, ret: Option<usize>) -> bool {
    &&& post.current == pre.current
    &&& post.tasks == pre.tasks.update(pre.current as int, post.cur())
    &&& brk_spec(pre.cur(), post.cur(), size, ret)
    &&& post.free_frames == pre.free_frames - (if brk_accepts(pre.cur(), size) {
        brk_frames(pre.cur(), size)
    } else {
        0
    })
}

/// The part of the task manager that changes while the kernel runs.
pub struct TaskManagerInner {
    tasks: Vec<TaskControlBlock>,
    current_task: usize,
}

/// The task manager: the fixed pool of tasks, the index of the current one,
/// and the frame pool that their address spaces draw on.
///
/// It is an owned object, made once at boot. Whoever holds `&mut` to it has
/// the exclusive access that every change needs.
pub struct TaskManager {
    num_app: usize,
    inner: TaskManagerInner,
    frame_allocator: StackFrameAllocator,
}

impl View for TaskManager {
    type V = KernelView;

    closed spec fn view(&self) -> KernelView {
        KernelView {
            tasks: Seq::new(self.inner.tasks@.len(), |i: int| self.inner.tasks@[i]@),
            current: self.inner.current_task,
            free_frames: self.frame_allocator.free_count(),
        }
    }
}

/// For a scan over `n` tasks, step `k` looks at `current + k`, less `n`
/// where that is past the end.
pub proof fn lemma_slot(n: int, current: int, k: int)
    requires
        0 <= current < n,
        0 <= k <= n,
    ensures
        slot(n, current, k) == (if current + k < n {
            current + k
        } else {
            current + k - n
        }),
{
    if current + k < n {
        vstd::arithmetic::div_mod::lemma_small_mod((current + k) as nat, n as nat);
    } else {
        vstd::arithmetic::div_mod::lemma_fundamental_div_mod_converse(
            current + k,
            n,
            1,
            current + k - n,
        );
    }
}

impl TaskManager {
    /// There is a task, the current index names one, and every task and the
    /// frame pool are well-formed.
    pub closed spec fn wf(&self) -> bool {
        &&& self.num_app == self.inner.tasks@.len()
        &&& self.inner.current_task < self.inner.tasks@.len()
        &&& self.frame_allocator.wf()
        &&& forall|i: int| 0 <= i < self.inner.tasks@.len() ==> (#[trigger] self.inner.tasks@[i]).wf()
    }

    /// In a well-formed manager the current index names a task, and every
    /// task's address space is consistent.
    pub proof fn lemma_view(&self)
        requires
            self.wf(),
        ensures
            self@.current < self@.tasks.len(),
            forall|i: int|
                0 <= i < self@.tasks.len() ==> {
                    &&& (#[trigger] self@.tasks[i]).space.consistent()
                    &&& self@.tasks[i].heap_bottom <= self@.tasks[i].program_brk <= isize::MAX
                },
    {
        assert forall|i: int| 0 <= i < self@.tasks.len() implies {
            &&& (#[trigger] self@.tasks[i]).space.consistent()
            &&& self@.tasks[i].heap_bottom <= self@.tasks[i].program_brk <= isize::MAX
        } by {
            assert(self.inner.tasks@[i].wf());
            self.inner.tasks@[i].lemma_space_consistent();
        }
    }

    /// A manager over `tasks`, none of them running yet, with task 0 as the
    /// current one. There must be at least one task.
    pub fn new(tasks: Vec<TaskControlBlock>, frame_allocator: StackFrameAllocator) -> (manager:
        TaskManager)
        requires
            tasks@.len() > 0,
            forall|i: int| 0 <= i < tasks@.len() ==> (#[trigger] tasks@[i]).wf(),
            frame_allocator.wf(),
        ensures
            manager.wf(),
            manager@ == (KernelView {
                tasks: Seq::new(tasks@.len(), |i: int| tasks@[i]@),
                current: 0,
                free_frames: frame_allocator.free_count(),
            }),
    {
        let num_app = tasks.len();
        TaskManager {
            num_app,
            inner: TaskManagerInner { tasks, current_task: 0 },
            frame_allocator,
        }
    }

    /// The number of tasks in the pool.
    pub fn num_app(&self) -> (n: usize)
        requires
            self.wf(),
        ensures
            n == self@.tasks.len(),
    {
        self.num_app
    }

    /// The index of the current task.
    pub fn current_task(&self) -> (current: usize)
        ensures
            current == self@.current,
    {
        self.inner.current_task
    }

    /// The record of task `id`.
    pub fn task(&self, id: usize) -> (task: &TaskControlBlock)
        requires
            self.wf(),
            id < self@.tasks.len(),
        ensures
            task@ == self@.tasks[id as int],
            task.wf(),
    {
        &self.inner.tasks[id]
    }

    /// Whether the frame pool can still hand out `n` frames.
    pub fn can_alloc(&self, n: usize) -> (yes: bool)
        requires
            self.wf(),
        ensures
            yes == (self@.free_frames >= n),
    {
        self.frame_allocator.can_alloc(n)
    }

    /// Marks task 0 as `Running` and returns its saved context, which is to
    /// be resumed; whatever ran before is left behind for good.
    pub fn run_first_task(&mut self) -> (cx: TaskContext)
        requires
            old(self).wf(),
        ensures
            final(self).wf(),
            final(self)@ == (KernelView {
                tasks: old(self)@.tasks.update(
                    0,
                    (TaskView { status: TaskStatus::Running, ..old(self)@.tasks[0] }),
                ),
                ..old(self)@
            }),
            cx == old(self)@.tasks[0].context,
    {
        self.inner.tasks[0].task_status = TaskStatus::Running;
        let cx = self.inner.tasks[0].task_cx;
        assert(self@.tasks =~= old(self)@.tasks.update(
            0,
            (TaskView { status: TaskStatus::Running, ..old(self)@.tasks[0] }),
        ));
        cx
    }

    /// Keeps `cx` as the saved context of task `id`, as the switch away
    /// from that task leaves it.
    pub fn save_context(&mut self, id: usize, cx: TaskContext)
        requires
            old(self).wf(),
            id < old(self)@.tasks.len(),
        ensures
            final(self).wf(),
            final(self)@ == (KernelView {
                tasks: old(self)@.tasks.update(
                    id as int,
                    (TaskView { context: cx, ..old(self)@.tasks[id as int] }),
                ),
                ..old(self)@
            }),
    {
        self.inner.tasks[id].task_cx = cx;
        assert(self@.tasks =~= old(self)@.tasks.update(
            id as int,
            (TaskView { context: cx, ..old(self)@.tasks[id as int] }),
        ));
    }

    /// Turns the current task from `Running` to `Ready`.
    pub fn mark_current_suspended(&mut self)
        requires
            old(self).wf(),
        ensures
            final(self).wf(),
            final(self)@ == old(self)@.with_status(TaskStatus::Ready),
    {
        let cur = self.inner.current_task;
        self.inner.tasks[cur].task_status = TaskStatus::Ready;
        assert(self@.tasks =~= old(self)@.with_status(TaskStatus::Ready).tasks);
    }

    /// Turns the current task from `Running` to `Exited` and tears its
    /// address space down, which gives its frames back to the pool.
    pub fn mark_current_exited(&mut self)
        requires
            old(self).wf(),
        ensures
            final(self).wf(),
            final(self)@ == old(self)@.after_exit(),
    {
        let cur = self.inner.current_task;
        self.inner.tasks[cur].task_status = TaskStatus::Exited;
        self.inner.tasks[cur].memory_set.recycle_data_pages(&mut self.frame_allocator);
        assert(self@.tasks =~= old(self)@.after_exit().tasks);
    }

    /// Finds the task to run next: the first `Ready` one met when scanning
    /// from the task after the current one round to the current one itself.
    /// `None` where no task is `Ready`.
    pub fn find_next_task(&self) -> (next: Option<usize>)
        requires
            self.wf(),
        ensures
            match next {
                Some(id) => id < self@.tasks.len() && is_first_ready(
                    self@.tasks,
                    self@.current as int,
                    id as int,
                ),
                None => none_ready(self@.tasks),
            },
    {
        let n = self.num_app;
        let current = self.inner.current_task;
        let mut scanned: usize = 0;
        let mut id: usize = current;
        proof {
            lemma_slot(n as int, current as int, 0);
        }
        while scanned < n
            invariant
                self.wf(),
                n == self@.tasks.len(),
                current == self@.current,
                current < n,
                scanned <= n,
                id < n,
                id == slot(n as int, current as int, scanned as int),
                forall|j: int|
                    1 <= j <= scanned ==> self@.tasks[#[trigger] slot(
                        n as int,
                        current as int,
                        j,
                    )].status != TaskStatus::Ready,
            decreases n - scanned,
        {
            proof {
                lemma_slot(n as int, current as int, scanned as int);
                lemma_slot(n as int, current as int, scanned + 1);
            }
            id = if id + 1 == n {
                0
            } else {
                id + 1
            };
            scanned = scanned + 1;
            if self.inner.tasks[id].task_status == TaskStatus::Ready {
                assert(self@.tasks[id as int].status == TaskStatus::Ready);
                return Some(id);
            }
        }
        assert forall|i: int| 0 <= i < self@.tasks.len() implies (#[trigger] self@.tasks[i]).status
            != TaskStatus::Ready by {
            let k = if i > current {
                i - current
            } else {
                i - current + n
            };
            lemma_slot(n as int, current as int, k);
            assert(slot(n as int, current as int, k) == i);
        }
        None
    }

    /// Picks the next task, marks it `Running` and makes it current, and
    /// says between which two tasks to switch; where no task is `Ready`,
    /// changes nothing and says that all applications completed.
    pub fn run_next_task(&mut self) -> (decision: NextTask)
        requires
            old(self).wf(),
        ensures
            final(self).wf(),
            run_next_spec(old(self)@, final(self)@, decision),
    {
        match self.find_next_task() {
            Some(next) => {
                let current = self.inner.current_task;
                self.inner.tasks[next].task_status = TaskStatus::Running;
                self.inner.current_task = next;
                assert(self@.tasks =~= old(self)@.tasks.update(
                    next as int,
                    (TaskView { status: TaskStatus::Running, ..old(self)@.tasks[next as int] }),
                ));
                NextTask::Switch { from: current, to: next }
            },
            None => NextTask::AllCompleted,
        }
    }

    /// The token of the current task's address space.
    pub fn get_current_token(&self) -> (token: usize)
        requires
            self.wf(),
        ensures
            token == self@.cur().token,
    {
        self.inner.tasks[self.inner.current_task].get_user_token()
    }

    /// The frame that holds the current task's trap context.
    pub fn get_current_trap_cx(&self) -> (ppn: PhysPageNum)
        requires
            self.wf(),
        ensures
            ppn == self@.cur().trap_cx_ppn,
    {
        self.inner.tasks[self.inner.current_task].get_trap_cx_ppn()
    }

    /// Moves the current task's program break by `size` bytes.
    pub fn change_current_program_brk(&mut self, size: i32) -> (ret: Option<usize>)
        requires
            old(self).wf(),
            brk_accepts(old(self)@.cur(), size) ==> old(self)@.free_frames >= brk_frames(
                old(self)@.cur(),
                size,
            ),
        ensures
            final(self).wf(),
            task_brk_spec(old(self)@, final(self)@, size, ret),
    {
        let cur = self.inner.current_task;
        let ret = self.inner.tasks[cur].change_program_brk(&mut self.frame_allocator, size);
        assert(self@.tasks =~= old(self)@.tasks.update(cur as int, self@.cur()));
        ret
    }

    /// Counts one more invocation of system call `id` by the current task.
    pub fn push_task_trace(&mut self, id: usize)
        requires
            old(self).wf(),
            count_of(old(self)@.cur().counts, id) < isize::MAX,
        ensures
            final(self).wf(),
            final(self)@ == old(self)@.with_bump(id),
    {
        let cur = self.inner.current_task;
        let count = self.inner.tasks[cur].syscall_count(id);
        self.inner.tasks[cur].syscall_times.insert(id, count + 1);
        assert(self@.tasks =~= old(self)@.with_bump(id).tasks);
    }

    /// How often the current task has invoked system call `id`; 0 if never.
    pub fn get_task_trace(&self, id: usize) -> (count: isize)
        requires
            self.wf(),
        ensures
            count == count_of(self@.cur().counts, id),
    {
        self.inner.tasks[self.inner.current_task].syscall_count(id)
    }

    /// The address space that `token` names: that of the first task in the
    /// pool with this token, current or not. `None` where no task has it.
    pub fn space_from_token(&self, token: usize) -> (found: Option<&MemorySet>)
        requires
            self.wf(),
        ensures
            match found {
                Some(set) => exists|i: int|
                    {
                        &&& 0 <= i < self@.tasks.len()
                        &&& (#[trigger] self@.tasks[i]).token == token
                        &&& set@ == self@.tasks[i].space
                        &&& set.wf()
                        &&& forall|j: int| 0 <= j < i ==> (#[trigger] self@.tasks[j]).token != token
                    },
                None => forall|i: int|
                    0 <= i < self@.tasks.len() ==> (#[trigger] self@.tasks[i]).token != token,
            },
    {
        let mut i: usize = 0;
        while i < self.inner.tasks.len()
            invariant
                self.wf(),
                i <= self.inner.tasks@.len(),
                forall|j: int| 0 <= j < i ==> (#[trigger] self@.tasks[j]).token != token,
            decreases self.inner.tasks@.len() - i,
        {
            if self.inner.tasks[i].get_user_token() == token {
                assert(self@.tasks[i as int].token == token);
                return Some(self.inner.tasks[i].memory_set());
            }
            i = i + 1;
        }
        None
    }
}

/// Marks task 0 as `Running` and returns the context to resume.
pub fn run_first_task(manager: &mut TaskManager) -> (cx: TaskContext)
    requires
        old(manager).wf(),
    ensures
        final(manager).wf(),
        final(manager)@ == (KernelView {
            tasks: old(manager)@.tasks.update(
                0,
                (TaskView { status: TaskStatus::Running, ..old(manager)@.tasks[0] }),
            ),
            ..old(manager)@
        }),
        cx == old(manager)@.tasks[0].context,
{
    manager.run_first_task()
}

/// Turns the current task from `Running` to `Ready` and picks the next.
/// The task itself is `Ready` then, so there always is a next one.
pub fn suspend_current_and_run_next(manager: &mut TaskManager) -> (decision: NextTask)
    requires
        old(manager).wf(),
    ensures
        final(manager).wf(),
        run_next_spec(old(manager)@.with_status(TaskStatus::Ready), final(manager)@, decision),
        decision is Switch,
{
    manager.mark_current_suspended();
    let decision = manager.run_next_task();
    proof {
        let mid = old(manager)@.with_status(TaskStatus::Ready);
        old(manager).lemma_view();
        assert(mid.tasks[mid.current as int].status == TaskStatus::Ready);
    }
    decision
}

/// Turns the current task from `Running` to `Exited`, tears its address
/// space down, and picks the next.
pub fn exit_current_and_run_next(manager: &mut TaskManager) -> (decision: NextTask)
    requires
        old(manager).wf(),
    ensures
        final(manager).wf(),
        run_next_spec(old(manager)@.after_exit(), final(manager)@, decision),
{
    manager.mark_current_exited();
    manager.run_next_task()
}

/// The token of the current task's address space.
pub fn current_user_token(manager: &TaskManager) -> (token: usize)
    requires
        manager.wf(),
    ensures
        token == manager@.cur().token,
{
    manager.get_current_token()
}

/// The frame that holds the current task's trap context.
pub fn current_trap_cx(manager: &TaskManager) -> (ppn: PhysPageNum)
    requires
        manager.wf(),
    ensures
        ppn == manager@.cur().trap_cx_ppn,
{
    manager.get_current_trap_cx()
}

/// Moves the current task's program break by `size` bytes.
pub fn change_program_brk(manager: &mut TaskManager, size: i32) -> (ret: Option<usize>)
    requires
        old(manager).wf(),
        brk_accepts(old(manager)@.cur(), size) ==> old(manager)@.free_frames >= brk_frames(
            old(manager)@.cur(),
            size,
        ),
    ensures
        final(manager).wf(),
        task_brk_spec(old(manager)@, final(manager)@, size, ret),
{
    manager.change_current_program_brk(size)
}

/// How often the current task has invoked system call `id`; 0 if never.
pub fn get_task_trace(manager: &TaskManager, id: usize) -> (count: isize)
    requires
        manager.wf(),
    ensures
        count == count_of(manager@.cur().counts, id),
{
    manager.get_task_trace(id)
}

/// Counts one more invocation of system call `id` by the current task.
pub fn push_task_trace(manager: &mut TaskManager, id: usize)
    requires
        old(manager).wf(),
        count_of(old(manager)@.cur().counts, id) < isize::MAX,
    ensures
        final(manager).wf(),
        final(manager)@ == old(manager)@.with_bump(id),
{
    manager.push_task_trace(id)
}

/// Maps `len` bytes from `start` on into the current task's address space
/// with permission request `prot`: 0 for a zero `len` or a granted request,
/// -1 with nothing changed otherwise.
pub fn task_mmap(manager: &mut TaskManager, start: usize, len: usize, prot: usize) -> (ret: isize)
    requires
        old(manager).wf(),
        mmap_accepts(old(manager)@.cur().space, start, len, prot) ==> old(manager)@.free_frames
            >= pages_spanned(start, len),
    ensures
        final(manager).wf(),
        task_mmap_spec(old(manager)@, final(manager)@, start, len, prot, ret),
{
    if len == 0 {
        proof {
            manager.lemma_unchanged();
        }
        return 0;
    }
    let va_start = VirtAddr(start);
    let flags = match PTEFlags::from_permission_bits(prot) {
        Some(f) => f,
        None => {
            proof {
                manager.lemma_unchanged();
            }
            return -1;
        },
    };
    let end_addr = match start.checked_add(len) {
        Some(e) => e,
        None => {
            proof {
                manager.lemma_unchanged();
            }
            return -1;
        },
    };
    if !va_start.aligned() {
        proof {
            manager.lemma_unchanged();
        }
        return -1;
    }
    let first = va_start.floor();
    let last = VirtAddr(end_addr).ceil();
    let cur = manager.inner.current_task;
    if !manager.inner.tasks[cur].memory_set.is_range_unmapped(first, last) {
        proof {
            manager.lemma_unchanged();
        }
        return -1;
    }
    manager.inner.tasks[cur].memory_set.map_range(&mut manager.frame_allocator, first, last, flags);
    assert(manager@.tasks =~= old(manager)@.tasks.update(
        cur as int,
        (TaskView { space: manager@.cur().space, ..old(manager)@.cur() }),
    ));
    0
}

/// Unmaps `len` bytes from `start` on from the current task's address
/// space: 0 for a zero `len` or a granted request, -1 with nothing unmapped
/// otherwise.
pub fn task_munmap(manager: &mut TaskManager, start: usize, len: usize) -> (ret: isize)
    requires
        old(manager).wf(),
    ensures
        final(manager).wf(),
        task_munmap_spec(old(manager)@, final(manager)@, start, len, ret),
{
    let cur = manager.inner.current_task;
    let ret = manager.inner.tasks[cur].memory_set.unmmap(&mut manager.frame_allocator, start, len);
    assert(manager@.tasks =~= old(manager)@.tasks.update(
        cur as int,
        (TaskView { space: manager@.cur().space, ..old(manager)@.cur() }),
    ));
    ret
}

impl TaskManager {
    /// Maps into the current task's address space as `MemorySet::mmap` does.
    pub fn current_mmap(&mut self, start: usize, len: usize, prot: usize) -> (ret: isize)
        requires
            old(self).wf(),
            mmap_accepts(old(self)@.cur().space, start, len, prot) ==> old(self)@.free_frames
                >= pages_spanned(start, len),
        ensures
            final(self).wf(),
            task_mmap_spec(old(self)@, final(self)@, start, len, prot, ret),
    {
        let cur = self.inner.current_task;
        let ret = self.inner.tasks[cur].memory_set.mmap(&mut self.frame_allocator, start, len, prot);
        assert(self@.tasks =~= old(self)@.tasks.update(
            cur as int,
            (TaskView { space: self@.cur().space, ..old(self)@.cur() }),
        ));
        ret
    }

    /// Reads the byte at `va` of the current task's address space on behalf
    /// of user code, as `MemorySet::peek` does.
    pub fn current_peek(&self, va: usize) -> (value: Option<u8>)
        requires
            self.wf(),
        ensures
            value == (if self@.cur().space.can_read(va) {
                Some(self@.cur().space.byte_at(va))
            } else {
                None
            }),
    {
        self.inner.tasks[self.inner.current_task].memory_set.peek(va)
    }

    /// Writes `value` at `va` of the current task's address space on behalf
    /// of user code, as `MemorySet::poke` does.
    pub fn current_poke(&mut self, va: usize, value: u8) -> (done: bool)
        requires
            old(self).wf(),
        ensures
            final(self).wf(),
            done == old(self)@.cur().space.can_write(va),
            final(self)@ == (if done {
                old(self)@.with_cur(
                    (TaskView {
                        space: old(self)@.cur().space.with_byte(va, value),
                        ..old(self)@.cur()
                    }),
                )
            } else {
                old(self)@
            }),
    {
        let cur = self.inner.current_task;
        let done = self.inner.tasks[cur].memory_set.poke(va, value);
        if done {
            assert(self@.tasks =~= old(self)@.with_cur(
                (TaskView {
                    space: old(self)@.cur().space.with_byte(va, value),
                    ..old(self)@.cur()
                }),
            ).tasks);
        } else {
            assert(self@.tasks =~= old(self)@.tasks);
        }
        done
    }

    /// Writes `bytes` from `va` on into the current task's address space, as
    /// `MemorySet::write_bytes` does.
    pub fn current_write_bytes(&mut self, va: usize, bytes: &Vec<u8>) -> (done: bool)
        requires
            old(self).wf(),
            bytes@.len() <= 4096,
        ensures
            final(self).wf(),
            done == old(self)@.cur().space.can_hold(va, bytes@.len() as int),
            final(self)@ == (if done {
                old(self)@.with_cur(
                    (TaskView {
                        space: old(self)@.cur().space.with_bytes(va, bytes@),
                        ..old(self)@.cur()
                    }),
                )
            } else {
                old(self)@
            }),
    {
        let cur = self.inner.current_task;
        let done = self.inner.tasks[cur].memory_set.write_bytes(va, bytes);
        if done {
            assert(self@.tasks =~= old(self)@.with_cur(
                (TaskView {
                    space: old(self)@.cur().space.with_bytes(va, bytes@),
                    ..old(self)@.cur()
                }),
            ).tasks);
        } else {
            assert(self@.tasks =~= old(self)@.tasks);
        }
        done
    }

    /// How many frames mapping `len` bytes at `start` with `prot` into the
    /// current task's address space would take; 0 where it would be refused.
    pub fn mmap_frames_needed(&self, start: usize, len: usize, prot: usize) -> (n: usize)
        requires
            self.wf(),
        ensures
            n == (if mmap_accepts(self@.cur().space, start, len, prot) {
                pages_spanned(start, len)
            } else {
                0
            }),
    {
        self.inner.tasks[self.inner.current_task].memory_set.mmap_frames_needed(start, len, prot)
    }

    /// How many frames moving the current task's break by `size` bytes would
    /// take; 0 where the move would be refused or takes none.
    pub fn brk_frames_needed(&self, size: i32) -> (n: usize)
        requires
            self.wf(),
        ensures
            n == (if brk_accepts(self@.cur(), size) && brk_frames(self@.cur(), size) > 0 {
                brk_frames(self@.cur(), size)
            } else {
                0
            }),
    {
        self.inner.tasks[self.inner.current_task].brk_frames_needed(size)
    }

    /// A state differs from itself in nothing.
    pub proof fn lemma_unchanged(&self)
        requires
            self.wf(),
        ensures
            self@.only_space_changed(self@),
    {
        assert(self@.tasks =~= self@.tasks.update(
            self@.current as int,
            (TaskView { space: self@.cur().space, ..self@.cur() }),
        ));
    }
}

} // verus!
