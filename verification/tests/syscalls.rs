use kernel_core::address::{PhysPageNum, VirtPageNum};
use kernel_core::frame_allocator::StackFrameAllocator;
use kernel_core::memory_set::MemorySet;
use kernel_core::syscall::{
    can_dispatch, supported_call, sys_exit, sys_get_time, sys_mmap, sys_munmap, sys_sbrk, sys_trace, sys_yield,
    syscall, SyscallOutcome, TimeVal, SYSCALL_EXIT, SYSCALL_GET_TIME, SYSCALL_MMAP,
    SYSCALL_MUNMAP, SYSCALL_SBRK, SYSCALL_TRACE, SYSCALL_WRITE, SYSCALL_YIELD,
};
use kernel_core::task::{run_first_task, NextTask, TaskContext, TaskControlBlock, TaskManager, TaskStatus};

fn kernel(tasks: usize, frames: usize) -> TaskManager {
    let mut pool = StackFrameAllocator::new(PhysPageNum(0x100), PhysPageNum(0x100 + tasks + frames));
    let mut pool_tasks: Vec<TaskControlBlock> = Vec::new();
    let mut i: usize = 0;
    while i < tasks {
        let space = MemorySet::new_bare(pool.frame_alloc().unwrap());
        let cx = TaskContext::goto(0x8000_0000, 0x9000_0000);
        pool_tasks.push(TaskControlBlock::new(space, PhysPageNum(0x50 + i), 0x20000, cx).unwrap());
        i += 1;
    }
    let mut manager = TaskManager::new(pool_tasks, pool);
    run_first_task(&mut manager);
    manager
}

#[test]
fn time_value_bytes() {
    let time = TimeVal::from_us(3_000_007);
    assert_eq!(time, TimeVal { sec: 3, usec: 7 });
    assert_eq!(time.to_bytes(), vec![3, 0, 0, 0, 0, 0, 0, 0, 7, 0, 0, 0, 0, 0, 0, 0]);
    let big = TimeVal { sec: 0x0102_0304_0506_0708, usec: 999_999 };
    assert_eq!(
        big.to_bytes(),
        vec![8, 7, 6, 5, 4, 3, 2, 1, 0x3f, 0x42, 0x0f, 0, 0, 0, 0, 0]
    );
    assert_eq!(TimeVal::from_us(999_999), TimeVal { sec: 0, usec: 999_999 });
    assert_eq!(TimeVal::from_us(1_000_000), TimeVal { sec: 1, usec: 0 });
}

#[test]
fn get_time_writes_the_record_within_a_page() {
    let mut manager = kernel(1, 4);
    assert_eq!(sys_mmap(&mut manager, 0x10000, 2 * 4096, 3), 0);
    assert_eq!(sys_get_time(&mut manager, 0x10020, 0, 5_000_123), 0);
    let bytes = manager.task(0).memory_set().read_bytes(0x10020, 16).unwrap();
    assert_eq!(bytes, vec![5, 0, 0, 0, 0, 0, 0, 0, 123, 0, 0, 0, 0, 0, 0, 0]);
}

#[test]
fn get_time_across_a_page_boundary_matches_the_plain_write() {
    let mut manager = kernel(1, 4);
    assert_eq!(sys_mmap(&mut manager, 0x10000, 2 * 4096, 3), 0);
    let us: usize = 0x1234_5678_9abc;
    assert_eq!(sys_get_time(&mut manager, 0x10000 + 4096 - 8, 0, us), 0);
    assert_eq!(sys_get_time(&mut manager, 0x10100, 0, us), 0);
    let space = manager.task(0).memory_set();
    let crossing = space.read_bytes(0x10000 + 4096 - 8, 16).unwrap();
    let inside = space.read_bytes(0x10100, 16).unwrap();
    assert_eq!(crossing, inside);
    assert_eq!(crossing, TimeVal::from_us(us).to_bytes());
    let mut tail = space.read_bytes(0x10000 + 4096 - 8, 8).unwrap();
    let head = space.read_bytes(0x11000, 8).unwrap();
    tail.extend(head);
    assert_eq!(tail, inside);
}

#[test]
fn get_time_fails_whole_where_a_page_is_unmapped() {
    let mut manager = kernel(1, 4);
    assert_eq!(sys_mmap(&mut manager, 0x10000, 4096, 3), 0);
    assert_eq!(sys_get_time(&mut manager, 0x10000 + 4096 - 8, 0, usize::MAX), -1);
    assert_eq!(manager.task(0).memory_set().read_bytes(0x10000 + 4096 - 8, 8), Some(vec![0; 8]));
    assert_eq!(sys_get_time(&mut manager, 0x30000, 0, 1), -1);
    assert_eq!(sys_get_time(&mut manager, 0x10000 + 4096 - 16, 0, 1), 0);
}

#[test]
fn yield_and_exit_hand_back_the_decision() {
    let mut manager = kernel(2, 0);
    assert_eq!(sys_yield(&mut manager), (0, NextTask::Switch { from: 0, to: 1 }));
    assert_eq!(manager.task(0).status(), TaskStatus::Ready);
    assert_eq!(manager.task(1).status(), TaskStatus::Running);
    assert_eq!(sys_exit(&mut manager, 0), NextTask::Switch { from: 1, to: 0 });
    assert_eq!(manager.task(1).status(), TaskStatus::Exited);
    assert_eq!(sys_yield(&mut manager), (0, NextTask::Switch { from: 0, to: 0 }));
    assert_eq!(sys_exit(&mut manager, -1), NextTask::AllCompleted);
    assert_eq!(manager.task(0).status(), TaskStatus::Exited);
}

#[test]
fn mmap_and_munmap_calls() {
    let mut manager = kernel(1, 4);
    assert_eq!(sys_mmap(&mut manager, 0x10000, 0, 0), 0);
    assert_eq!(sys_mmap(&mut manager, 0x10001, 4096, 3), -1);
    assert_eq!(sys_mmap(&mut manager, 0x10000, 4096, 0), -1);
    assert_eq!(sys_mmap(&mut manager, 0x10000, 4096, 8), -1);
    assert_eq!(sys_mmap(&mut manager, 0x10000, 4096, 3), 0);
    assert_eq!(sys_mmap(&mut manager, 0x10000, 4096, 3), -1);
    assert_eq!(sys_munmap(&mut manager, 0x10000, 0), 0);
    assert_eq!(sys_munmap(&mut manager, 0x10800, 4096), -1);
    assert_eq!(sys_munmap(&mut manager, 0x10000, 2 * 4096), -1);
    assert!(manager.task(0).memory_set().translate(VirtPageNum(0x10)).is_some());
    assert_eq!(sys_munmap(&mut manager, 0x10000, 4096), 0);
    assert!(manager.task(0).memory_set().translate(VirtPageNum(0x10)).is_none());
    assert_eq!(sys_munmap(&mut manager, 0x10000, 4096), -1);
    assert!(manager.can_alloc(4));
}

#[test]
fn trace_peeks_and_pokes_bytes() {
    let mut manager = kernel(1, 4);
    assert_eq!(sys_mmap(&mut manager, 0x10000, 4096, 3), 0);
    assert_eq!(sys_trace(&mut manager, 0, 0x10010, 0), 0);
    assert_eq!(sys_trace(&mut manager, 1, 0x10010, 0x1ff), 0);
    assert_eq!(sys_trace(&mut manager, 0, 0x10010, 0), 0xff);
    assert_eq!(sys_trace(&mut manager, 1, 0x10011, 0x80), 0);
    assert_eq!(sys_trace(&mut manager, 0, 0x10011, 0), 0x80);
    assert_eq!(sys_trace(&mut manager, 0, 0x10012, 0), 0);
    assert_eq!(sys_trace(&mut manager, 3, 0x10010, 0), -1);
    assert_eq!(sys_trace(&mut manager, usize::MAX, 0x10010, 0), -1);
}

#[test]
fn trace_refuses_unmapped_and_forbidden_pages() {
    let mut manager = kernel(1, 4);
    assert_eq!(sys_trace(&mut manager, 0, 0x10000, 0), -1);
    assert_eq!(sys_trace(&mut manager, 1, 0x10000, 5), -1);
    assert_eq!(sys_mmap(&mut manager, 0x10000, 4096, 1), 0);
    assert_eq!(sys_mmap(&mut manager, 0x11000, 4096, 2), 0);
    assert_eq!(sys_mmap(&mut manager, 0x12000, 4096, 4), 0);
    assert_eq!(sys_trace(&mut manager, 1, 0x10000, 5), -1);
    assert_eq!(sys_trace(&mut manager, 0, 0x10000, 0), 0);
    assert_eq!(sys_trace(&mut manager, 0, 0x11000, 0), -1);
    assert_eq!(sys_trace(&mut manager, 1, 0x11000, 5), 0);
    assert_eq!(manager.task(0).memory_set().read_bytes(0x11000, 1), Some(vec![5]));
    assert_eq!(sys_trace(&mut manager, 0, 0x12000, 0), -1);
    assert_eq!(sys_trace(&mut manager, 1, 0x12000, 5), -1);
    assert_eq!(manager.task(0).memory_set().read_bytes(0x12000, 1), Some(vec![0]));
    assert_eq!(manager.task(0).memory_set().read_bytes(0x10000, 1), Some(vec![0]));
}

#[test]
fn trace_counts_dispatched_calls() {
    let mut manager = kernel(2, 4);
    assert_eq!(sys_trace(&mut manager, 2, SYSCALL_GET_TIME, 0), 0);
    let mut k: isize = 0;
    while k < 4 {
        assert!(can_dispatch(&manager, SYSCALL_GET_TIME, [0x10000, 0, 0]));
        assert_eq!(syscall(&mut manager, SYSCALL_GET_TIME, [0x10000, 0, 0], 1), SyscallOutcome::Return(-1));
        k += 1;
        assert_eq!(sys_trace(&mut manager, 2, SYSCALL_GET_TIME, 0), k);
    }
    assert_eq!(
        syscall(&mut manager, SYSCALL_TRACE, [2, SYSCALL_GET_TIME, 0], 0),
        SyscallOutcome::Return(4)
    );
    assert_eq!(syscall(&mut manager, SYSCALL_TRACE, [2, SYSCALL_TRACE, 0], 0), SyscallOutcome::Return(2));
    assert_eq!(
        syscall(&mut manager, SYSCALL_YIELD, [0, 0, 0], 0),
        SyscallOutcome::Yielded(NextTask::Switch { from: 0, to: 1 })
    );
    assert_eq!(sys_trace(&mut manager, 2, SYSCALL_GET_TIME, 0), 0);
    assert_eq!(sys_trace(&mut manager, 2, SYSCALL_YIELD, 0), 0);
    assert_eq!(manager.task(0).syscall_count(SYSCALL_YIELD), 1);
    assert_eq!(manager.task(0).syscall_count(SYSCALL_GET_TIME), 4);
}

#[test]
fn sbrk_returns_the_old_break() {
    let mut manager = kernel(1, 4);
    assert_eq!(sys_sbrk(&mut manager, 0), 0x20000);
    assert_eq!(sys_sbrk(&mut manager, 0x1800), 0x20000);
    assert_eq!(sys_sbrk(&mut manager, -0x800), 0x21800);
    assert_eq!(sys_sbrk(&mut manager, -0x1001), -1);
    assert_eq!(sys_sbrk(&mut manager, 0), 0x21000);
    assert!(manager.task(0).memory_set().translate(VirtPageNum(0x20)).is_some());
    assert!(manager.task(0).memory_set().translate(VirtPageNum(0x21)).is_none());
}

#[test]
fn dispatcher_routes_each_call() {
    let mut manager = kernel(2, 4);
    assert_eq!(
        syscall(&mut manager, SYSCALL_WRITE, [1, 0x10000, 12], 0),
        SyscallOutcome::Write { fd: 1, buf: 0x10000, len: 12 }
    );
    assert!(can_dispatch(&manager, SYSCALL_MMAP, [0x10000, 4096, 3]));
    assert_eq!(syscall(&mut manager, SYSCALL_MMAP, [0x10000, 4096, 3], 0), SyscallOutcome::Return(0));
    assert_eq!(syscall(&mut manager, SYSCALL_MMAP, [0x10000, 4096, 3], 0), SyscallOutcome::Return(-1));
    assert_eq!(
        syscall(&mut manager, SYSCALL_GET_TIME, [0x10000, 0, 0], 2_000_001),
        SyscallOutcome::Return(0)
    );
    assert_eq!(
        manager.task(0).memory_set().read_bytes(0x10000, 9),
        Some(vec![2, 0, 0, 0, 0, 0, 0, 0, 1])
    );
    assert_eq!(syscall(&mut manager, SYSCALL_TRACE, [0, 0x10000, 0], 0), SyscallOutcome::Return(2));
    assert_eq!(syscall(&mut manager, SYSCALL_MUNMAP, [0x10000, 4096, 0], 0), SyscallOutcome::Return(0));
    assert_eq!(syscall(&mut manager, SYSCALL_MUNMAP, [0x10000, 4096, 0], 0), SyscallOutcome::Return(-1));
    assert_eq!(syscall(&mut manager, SYSCALL_SBRK, [4096, 0, 0], 0), SyscallOutcome::Return(0x20000));
    let minus_page: usize = (-4096isize) as usize;
    assert!(can_dispatch(&manager, SYSCALL_SBRK, [minus_page, 0, 0]));
    assert_eq!(syscall(&mut manager, SYSCALL_SBRK, [minus_page, 0, 0], 0), SyscallOutcome::Return(0x21000));
    assert_eq!(syscall(&mut manager, SYSCALL_SBRK, [0, 0, 0], 0), SyscallOutcome::Return(0x20000));
    assert_eq!(
        syscall(&mut manager, SYSCALL_EXIT, [0, 0, 0], 0),
        SyscallOutcome::Exited(NextTask::Switch { from: 0, to: 1 })
    );
    assert_eq!(
        syscall(&mut manager, SYSCALL_EXIT, [0, 0, 0], 0),
        SyscallOutcome::Exited(NextTask::AllCompleted)
    );
}

#[test]
fn dispatcher_readiness() {
    let mut manager = kernel(1, 1);
    assert!(!supported_call(0));
    assert!(!supported_call(65));
    assert!(supported_call(SYSCALL_TRACE));
    assert!(!can_dispatch(&manager, 0, [0, 0, 0]));
    assert!(!can_dispatch(&manager, 65, [0, 0, 0]));
    assert!(can_dispatch(&manager, SYSCALL_WRITE, [0, 0, 0]));
    assert!(can_dispatch(&manager, SYSCALL_MMAP, [0x10000, 4096, 3]));
    assert!(!can_dispatch(&manager, SYSCALL_MMAP, [0x10000, 2 * 4096, 3]));
    assert!(can_dispatch(&manager, SYSCALL_MMAP, [0x10001, 2 * 4096, 3]));
    assert!(can_dispatch(&manager, SYSCALL_SBRK, [4096, 0, 0]));
    assert!(!can_dispatch(&manager, SYSCALL_SBRK, [4097, 0, 0]));
    assert_eq!(syscall(&mut manager, SYSCALL_MMAP, [0x10000, 4096, 3], 0), SyscallOutcome::Return(0));
    assert!(!can_dispatch(&manager, SYSCALL_MMAP, [0x20000, 4096, 3]));
    assert!(can_dispatch(&manager, SYSCALL_MMAP, [0x10000, 4096, 3]));
    assert!(can_dispatch(&manager, SYSCALL_MUNMAP, [0x10000, 4096, 0]));
}
