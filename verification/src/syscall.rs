//! The system calls of the kernel core and their dispatcher.
//!
//! Every call works on the task manager it is handed. A call that gives up
//! the processor returns the scheduler's decision instead of switching.

use crate::memory_set::{mmap_accepts, pages_spanned};
use crate::task::{
    brk_accepts, brk_frames, count_of, exit_current_and_run_next, run_next_spec,
    suspend_current_and_run_next, task_brk_spec, task_mmap_spec, task_munmap, task_munmap_spec,
    KernelView, NextTask, TaskManager, TaskStatus, TaskView,
};
use vstd::prelude::*;

verus! {

/// Writes bytes to a file descriptor.
pub const SYSCALL_WRITE: usize = 64;

/// Ends the calling task.
pub const SYSCALL_EXIT: usize = 93;

/// Gives up the processor.
pub const SYSCALL_YIELD: usize = 124;

/// Reads the time.
pub const SYSCALL_GET_TIME: usize = 169;

/// Moves the program break.
pub const SYSCALL_SBRK: usize = 214;

/// Unmaps a range of the address space.
pub const SYSCALL_MUNMAP: usize = 215;

/// Maps a range of the address space.
pub const SYSCALL_MMAP: usize = 222;

/// Peeks, pokes or asks for a system-call count.
pub const SYSCALL_TRACE: usize = 410;

/// A time as whole seconds and the microseconds beyond them.
#[derive(Clone, Copy, Debug, PartialEq, Eq, Structural)]
pub struct TimeVal {
    pub sec: usize,
    pub usec: usize,
}

/// The eight bytes of `x` as a 64-bit word, least significant first.
pub open spec fn le_bytes(x: usize) -> Seq<u8> {
    let v = x as int;
    seq![
        (v % 0x100) as u8,
        (v / 0x100 % 0x100) as u8,
        (v / 0x1_0000 % 0x100) as u8,
        (v / 0x100_0000 % 0x100) as u8,
        (v / 0x1_0000_0000 % 0x100) as u8,
        (v / 0x100_0000_0000 % 0x100) as u8,
        (v / 0x1_0000_0000_0000 % 0x100) as u8,
        (v / 0x100_0000_0000_0000 % 0x100) as u8,
    ]
}

/// The time `us` microseconds after boot.
pub open spec fn time_of(us: usize) -> TimeVal {
    TimeVal { sec: us / 1_000_000, usec: us % 1_000_000 }
}

fn push_le_bytes(out: &mut Vec<u8>, x: usize)
    ensures
        final(out)@ == old(out)@ + le_bytes(x),
{
    let v = x as u64;
    out.push((v % 0x100) as u8);
    out.push((v / 0x100 % 0x100) as u8);
    out.push((v / 0x1_0000 % 0x100) as u8);
    out.push((v / 0x100_0000 % 0x100) as u8);
    out.push((v / 0x1_0000_0000 % 0x100) as u8);
    out.push((v / 0x100_0000_0000 % 0x100) as u8);
    out.push((v / 0x1_0000_0000_0000 % 0x100) as u8);
    out.push((v / 0x100_0000_0000_0000 % 0x100) as u8);
    assert(out@ =~= old(out)@ + le_bytes(x));
}

impl TimeVal {
    /// The record as it lies in memory: `sec`, then `usec`, each as eight
    /// bytes, least significant first.
    pub open spec fn spec_bytes(self) -> Seq<u8> {
        le_bytes(self.sec) + le_bytes(self.usec)
    }

    /// The time `us` microseconds after boot.
    pub fn from_us(us: usize) -> (time: TimeVal)
        ensures
            time == time_of(us),
    {
        TimeVal { sec: us / 1_000_000, usec: us % 1_000_000 }
    }

    /// The sixteen bytes of the record as it lies in memory.
    pub fn to_bytes(&self) -> (bytes: Vec<u8>)
        ensures
            bytes@ == self.spec_bytes(),
            bytes@.len() == 16,
    {
        let mut out: Vec<u8> = Vec::new();
        push_le_bytes(&mut out, self.sec);
        push_le_bytes(&mut out, self.usec);
        assert(out@ =~= self.spec_bytes());
        out
    }
}

/// What a system call leaves for its caller to do.
#[derive(Clone, Copy, Debug, PartialEq, Eq, Structural)]
pub enum SyscallOutcome {
    /// Hand this value back to the task.
    Return(isize),
    /// The task gave up the processor: switch as decided, and hand 0 back to
    /// the task when it runs again.
    Yielded(NextTask),
    /// The task ended: switch as decided, or halt.
    Exited(NextTask),
    /// Write the `len` bytes at `buf` of the task's address space to file
    /// descriptor `fd`, and hand back what the write returns.
    Write { fd: usize, buf: usize, len: usize },
}

/// What `sys_get_time` returns and does: where every page under the
/// sixteen bytes at `ts` is mapped, the record of time `us` is written there
/// and 0 returned; where not, nothing is written and -1 returned.
pub open spec fn sys_get_time_spec(
    pre: KernelView,
    post: KernelView,
    ts: usize,
    us: usize,
    ret: isize,
) -> bool {
    if pre.cur().space.can_hold(ts, 16) {
        &&& ret == 0
        &&& post == pre.with_cur(
            (TaskView {
                space: pre.cur().space.with_bytes(ts, time_of(us).spec_bytes()),
                ..pre.cur()
            }),
        )
    } else {
        ret == -1 && post == pre
    }
}

/// What `sys_trace` returns and does, by request kind: 0 reads the byte at
/// address `id`, 1 writes the low byte of `data` there, 2 returns how often
/// the current task invoked system call `id`; any other kind, and a peek or
/// poke that user code may not make, returns -1 and touches nothing.
pub open spec fn sys_trace_spec(
    pre: KernelView,
    post: KernelView,
    kind: usize,
    id: usize,
    data: usize,
    ret: isize,
) -> bool {
    let space = pre.cur().space;
    if kind == 0 {
        &&& post == pre
        &&& ret == (if space.can_read(id) {
            space.byte_at(id) as int
        } else {
            -1
        })
    } else if kind == 1 {
        if space.can_write(id) {
            &&& ret == 0
            &&& post == pre.with_cur(
                (TaskView { space: space.with_byte(id, (data % 256) as u8), ..pre.cur() }),
            )
        } else {
            ret == -1 && post == pre
        }
    } else if kind == 2 {
        post == pre && ret == count_of(pre.cur().counts, id)
    } else {
        post == pre && ret == -1
    }
}

/// A peek at an address that user code may not read, and a poke at one it
/// may not write, returns -1 and leaves the kernel as it was.
pub proof fn lemma_trace_refused(
    pre: KernelView,
    post: KernelView,
    kind: usize,
    addr: usize,
    data: usize,
    ret: isize,
)
    requires
        sys_trace_spec(pre, post, kind, addr, data, ret),
        kind == 0 && !pre.cur().space.can_read(addr) || kind == 1 && !pre.cur().space.can_write(
            addr,
        ),
    ensures
        ret == -1,
        post == pre,
{
}

/// What `sys_sbrk` returns and does: a granted move returns the break as it
/// was, a refused one -1.
pub open spec fn sys_sbrk_spec(pre: KernelView, post: KernelView, size: i32, ret: isize) -> bool {
    if brk_accepts(pre.cur(), size) {
        &&& ret == pre.cur().program_brk
        &&& task_brk_spec(pre, post, size, Some(pre.cur().program_brk))
    } else {
        &&& ret == -1
        &&& task_brk_spec(pre, post, size, None)
    }
}

/// Ends the current task: it becomes `Exited`, its address space is torn
/// down, and the scheduler decides what runs next. The exit code is not kept.
pub fn sys_exit(manager: &mut TaskManager, _exit_code: i32) -> (decision: NextTask)
    requires
        old(manager).wf(),
    ensures
        final(manager).wf(),
        run_next_spec(old(manager)@.after_exit(), final(manager)@, decision),
{
    exit_current_and_run_next(manager)
}

/// The current task gives up the processor: it becomes `Ready`, and the
/// scheduler decides what runs next. The task is handed 0 when it runs again.
pub fn sys_yield(manager: &mut TaskManager) -> (ret: (isize, NextTask))
    requires
        old(manager).wf(),
    ensures
        final(manager).wf(),
        ret.0 == 0,
        ret.1 is Switch,
        run_next_spec(old(manager)@.with_status(TaskStatus::Ready), final(manager)@, ret.1),
{
    let decision = suspend_current_and_run_next(manager);
    (0, decision)
}

/// Writes the time `us` microseconds after boot as a [`TimeVal`] at address
/// `ts` of the current task, across a page boundary where the record
/// straddles one.
pub fn sys_get_time(manager: &mut TaskManager, ts: usize, _tz: usize, us: usize) -> (ret: isize)
    requires
        old(manager).wf(),
    ensures
        final(manager).wf(),
        sys_get_time_spec(old(manager)@, final(manager)@, ts, us, ret),
{
    let time = TimeVal::from_us(us);
    let bytes = time.to_bytes();
    if manager.current_write_bytes(ts, &bytes) {
        0
    } else {
        -1
    }
}

/// Maps `len` bytes at `start` into the current task's address space with
/// permission request `prot`.
pub fn sys_mmap(manager: &mut TaskManager, start: usize, len: usize, prot: usize) -> (ret: isize)
    requires
        old(manager).wf(),
        mmap_accepts(old(manager)@.cur().space, start, len, prot) ==> old(manager)@.free_frames
            >= pages_spanned(start, len),
    ensures
        final(manager).wf(),
        task_mmap_spec(old(manager)@, final(manager)@, start, len, prot, ret),
{
    if len == 0 {
        proof {
            manager.lemma_unchanged();
        }
        return 0;
    }
    if start % 4096 != 0 || prot > 7 || prot == 0 {
        proof {
            manager.lemma_unchanged();
        }
        return -1;
    }
    manager.current_mmap(start, len, prot)
}

/// Unmaps `len` bytes at `start` from the current task's address space.
pub fn sys_munmap(manager: &mut TaskManager, start: usize, len: usize) -> (ret: isize)
    requires
        old(manager).wf(),
    ensures
        final(manager).wf(),
        task_munmap_spec(old(manager)@, final(manager)@, start, len, ret),
{
    if len == 0 {
        proof {
            manager.lemma_unchanged();
        }
        return 0;
    }
    if start % 4096 != 0 {
        proof {
            manager.lemma_unchanged();
        }
        return -1;
    }
    task_munmap(manager, start, len)
}

/// Peeks or pokes a byte of the current task's address space, or reports
/// how often the current task invoked a system call.
pub fn sys_trace(manager: &mut TaskManager, trace_request: usize, id: usize, data: usize) -> (ret:
    isize)
    requires
        old(manager).wf(),
    ensures
        final(manager).wf(),
        sys_trace_spec(old(manager)@, final(manager)@, trace_request, id, data, ret),
{
    if trace_request == 0 {
        match manager.current_peek(id) {
            Some(value) => value as isize,
            None => -1,
        }
    } else if trace_request == 1 {
        if manager.current_poke(id, (data % 256) as u8) {
            0
        } else {
            -1
        }
    } else if trace_request == 2 {
        manager.get_task_trace(id)
    } else {
        -1
    }
}

/// Moves the current task's program break by `size` bytes and returns the
/// break as it was, or -1 where the move is refused.
pub fn sys_sbrk(manager: &mut TaskManager, size: i32) -> (ret: isize)
    requires
        old(manager).wf(),
        brk_accepts(old(manager)@.cur(), size) ==> old(manager)@.free_frames >= brk_frames(
            old(manager)@.cur(),
            size,
        ),
    ensures
        final(manager).wf(),
        sys_sbrk_spec(old(manager)@, final(manager)@, size, ret),
{
    proof {
        manager.lemma_view();
    }
    match manager.change_current_program_brk(size) {
        Some(old_brk) => old_brk as isize,
        None => -1,
    }
}


/// Whether `id` is a system call that the dispatcher knows.
pub open spec fn supported(id: usize) -> bool {
    ||| id == SYSCALL_WRITE
    ||| id == SYSCALL_EXIT
    ||| id == SYSCALL_YIELD
    ||| id == SYSCALL_GET_TIME
    ||| id == SYSCALL_SBRK
    ||| id == SYSCALL_MUNMAP
    ||| id == SYSCALL_MMAP
    ||| id == SYSCALL_TRACE
}

/// The low 32 bits of an argument word, read as a signed number.
pub open spec fn word_i32(word: usize) -> i32 {
    word as i32
}

/// Whether the dispatcher can take call `id` with `args` in state `pre`: it
/// knows the call, the current task's count of it can still grow, and the
/// frame pool holds what a granted mapping or break move would take.
pub open spec fn syscall_ready(pre: KernelView, id: usize, args: [usize; 3]) -> bool {
    &&& supported(id)
    &&& count_of(pre.cur().counts, id) < isize::MAX
    &&& id == SYSCALL_MMAP && mmap_accepts(pre.cur().space, args[0], args[1], args[2])
        ==> pre.free_frames >= pages_spanned(args[0], args[1])
    &&& id == SYSCALL_SBRK && brk_accepts(pre.cur(), word_i32(args[0])) ==> pre.free_frames
        >= brk_frames(pre.cur(), word_i32(args[0]))
}

/// What the dispatcher returns and does: it counts the call for the current
/// task, then does what the call named by `id` does.
pub open spec fn syscall_spec(
    pre: KernelView,
    post: KernelView,
    id: usize,
    args: [usize; 3],
    us: usize,
    out: SyscallOutcome,
) -> bool {
    let mid = pre.with_bump(id);
    if id == SYSCALL_WRITE {
        post == mid && out == (SyscallOutcome::Write { fd: args[0], buf: args[1], len: args[2] })
    } else if id == SYSCALL_EXIT {
        out matches SyscallOutcome::Exited(d) && run_next_spec(mid.after_exit(), post, d)
    } else if id == SYSCALL_YIELD {
        out matches SyscallOutcome::Yielded(d) && d is Switch && run_next_spec(
            mid.with_status(TaskStatus::Ready),
            post,
            d,
        )
    } else if id == SYSCALL_GET_TIME {
        out matches SyscallOutcome::Return(r) && sys_get_time_spec(mid, post, args[0], us, r)
    } else if id == SYSCALL_SBRK {
        out matches SyscallOutcome::Return(r) && sys_sbrk_spec(mid, post, word_i32(args[0]), r)
    } else if id == SYSCALL_MUNMAP {
        out matches SyscallOutcome::Return(r) && task_munmap_spec(mid, post, args[0], args[1], r)
    } else if id == SYSCALL_MMAP {
        out matches SyscallOutcome::Return(r) && task_mmap_spec(
            mid,
            post,
            args[0],
            args[1],
            args[2],
            r,
        )
    } else {
        out matches SyscallOutcome::Return(r) && sys_trace_spec(
            mid,
            post,
            args[0],
            args[1],
            args[2],
            r,
        )
    }
}

fn low_i32(word: usize) -> (value: i32)
    ensures
        value == word_i32(word),
{
    #[verifier::truncate]
    (word as i32)
}

/// Whether the dispatcher knows system call `syscall_id`.
pub fn supported_call(syscall_id: usize) -> (yes: bool)
    ensures
        yes == supported(syscall_id),
{
    syscall_id == SYSCALL_WRITE || syscall_id == SYSCALL_EXIT || syscall_id == SYSCALL_YIELD
        || syscall_id == SYSCALL_GET_TIME || syscall_id == SYSCALL_SBRK || syscall_id
        == SYSCALL_MUNMAP || syscall_id == SYSCALL_MMAP || syscall_id == SYSCALL_TRACE
}

/// Whether the dispatcher can take call `syscall_id` with `args` now.
pub fn can_dispatch(manager: &TaskManager, syscall_id: usize, args: [usize; 3]) -> (yes: bool)
    requires
        manager.wf(),
    ensures
        yes == syscall_ready(manager@, syscall_id, args),
{
    if !supported_call(syscall_id) {
        return false;
    }
    if manager.get_task_trace(syscall_id) >= isize::MAX {
        return false;
    }
    if syscall_id == SYSCALL_MMAP {
        manager.can_alloc(manager.mmap_frames_needed(args[0], args[1], args[2]))
    } else if syscall_id == SYSCALL_SBRK {
        manager.can_alloc(manager.brk_frames_needed(low_i32(args[0])))
    } else {
        true
    }
}

/// Handles system call `syscall_id` of the current task with `args`, at
/// time `us` microseconds after boot: counts the call, then performs it.
pub fn syscall(manager: &mut TaskManager, syscall_id: usize, args: [usize; 3], us: usize) -> (out:
    SyscallOutcome)
    requires
        old(manager).wf(),
        syscall_ready(old(manager)@, syscall_id, args),
    ensures
        final(manager).wf(),
        syscall_spec(old(manager)@, final(manager)@, syscall_id, args, us, out),
{
    proof {
        manager.lemma_view();
    }
    manager.push_task_trace(syscall_id);
    if syscall_id == SYSCALL_WRITE {
        SyscallOutcome::Write { fd: args[0], buf: args[1], len: args[2] }
    } else if syscall_id == SYSCALL_EXIT {
        SyscallOutcome::Exited(sys_exit(manager, low_i32(args[0])))
    } else if syscall_id == SYSCALL_YIELD {
        let yielded = sys_yield(manager);
        SyscallOutcome::Yielded(yielded.1)
    } else if syscall_id == SYSCALL_GET_TIME {
        SyscallOutcome::Return(sys_get_time(manager, args[0], args[1], us))
    } else if syscall_id == SYSCALL_SBRK {
        SyscallOutcome::Return(sys_sbrk(manager, low_i32(args[0])))
    } else if syscall_id == SYSCALL_MUNMAP {
        SyscallOutcome::Return(sys_munmap(manager, args[0], args[1]))
    } else if syscall_id == SYSCALL_MMAP {
        SyscallOutcome::Return(sys_mmap(manager, args[0], args[1], args[2]))
    } else {
        SyscallOutcome::Return(sys_trace(manager, args[0], args[1], args[2]))
    }
}

} // verus!
