//! The kernel behind its lock.
//!
//! On the one core there is, exclusive access to the task manager is what a
//! spin lock gives. The lock is only ever tried, never waited for: a task
//! manager found locked means that somebody held it across a switch.

use crate::syscall::{
    can_dispatch, supported, syscall, syscall_ready, syscall_spec, SyscallOutcome, SYSCALL_EXIT,
    SYSCALL_WRITE, SYSCALL_YIELD,
};
use crate::task::{KernelView, TaskContext, TaskManager, TaskStatus, TaskView};
use vstd::prelude::*;

verus! {

/// `spin`'s mutex. Nothing inside it is visible to the verifier.
#[verifier::external_type_specification]
#[verifier::external_body]
#[verifier::reject_recursive_types(T)]
#[verifier::reject_recursive_types(R)]
pub struct ExMutex<T: ?Sized, R>(spin::mutex::Mutex<T, R>);

/// The guard of `spin`'s mutex. Nothing inside it is visible to the verifier.
#[verifier::external_type_specification]
#[verifier::external_body]
#[verifier::reject_recursive_types(T)]
pub struct ExMutexGuard<'a, T: 'a + ?Sized>(spin::mutex::MutexGuard<'a, T>);

/// `spin`'s default way of waiting.
#[verifier::external_type_specification]
#[verifier::external_body]
pub struct ExSpin(spin::relax::Spin);

/// A task manager that is well-formed, whoever holds it.
pub struct Kernel {
    manager: TaskManager,
}

impl View for Kernel {
    type V = KernelView;

    closed spec fn view(&self) -> KernelView {
        self.manager@
    }
}

impl Kernel {
    #[verifier::type_invariant]
    spec fn inv(self) -> bool {
        self.manager.wf()
    }

    /// Wraps a well-formed task manager.
    pub fn new(manager: TaskManager) -> (kernel: Kernel)
        requires
            manager.wf(),
        ensures
            kernel@ == manager@,
    {
        Kernel { manager }
    }

    /// The task manager, to look at.
    pub fn manager(&self) -> (manager: &TaskManager)
        ensures
            manager.wf(),
            manager@ == self@,
    {
        proof {
            use_type_invariant(self);
        }
        &self.manager
    }

    /// The task manager, given up.
    pub fn into_manager(self) -> (manager: TaskManager)
        ensures
            manager.wf(),
            manager@ == self@,
    {
        proof {
            use_type_invariant(&self);
        }
        self.manager
    }

    /// Marks task 0 as `Running` and returns its saved context, which is to
    /// be resumed.
    pub fn run_first_task(self) -> (ret: (Kernel, TaskContext))
        ensures
            ret.0@ == (KernelView {
                tasks: self@.tasks.update(
                    0,
                    (TaskView { status: TaskStatus::Running, ..self@.tasks[0] }),
                ),
                ..self@
            }),
            ret.1 == self@.tasks[0].context,
    {
        proof {
            use_type_invariant(&self);
        }
        let mut manager = self.manager;
        let cx = manager.run_first_task();
        (Kernel { manager }, cx)
    }

    /// Keeps `cx` as the saved context of task `id`; changes nothing where
    /// there is no such task.
    pub fn save_context(self, id: usize, cx: TaskContext) -> (kernel: Kernel)
        ensures
            kernel@ == (if id < self@.tasks.len() {
                KernelView {
                    tasks: self@.tasks.update(
                        id as int,
                        (TaskView { context: cx, ..self@.tasks[id as int] }),
                    ),
                    ..self@
                }
            } else {
                self@
            }),
    {
        proof {
            use_type_invariant(&self);
        }
        let mut manager = self.manager;
        if id < manager.num_app() {
            manager.save_context(id, cx);
        }
        Kernel { manager }
    }

    /// Handles a system call if the dispatcher can take it now, and says
    /// `None`, with nothing changed, if it cannot. The kernel comes back
    /// as the call left it.
    pub fn dispatch(self, syscall_id: usize, args: [usize; 3], us: usize) -> (ret: (
        Kernel,
        Option<SyscallOutcome>,
    ))
        ensures
            match ret.1 {
                Some(outcome) => syscall_ready(self@, syscall_id, args) && syscall_spec(
                    self@,
                    ret.0@,
                    syscall_id,
                    args,
                    us,
                    outcome,
                ),
                None => !syscall_ready(self@, syscall_id, args) && ret.0@ == self@,
            },
    {
        proof {
            use_type_invariant(&self);
        }
        let mut manager = self.manager;
        if can_dispatch(&manager, syscall_id, args) {
            let outcome = syscall(&mut manager, syscall_id, args, us);
            (Kernel { manager }, Some(outcome))
        } else {
            (Kernel { manager }, None)
        }
    }
}

/// How a system call that came in through the lock ended.
#[derive(Clone, Copy, Debug, PartialEq, Eq, Structural)]
pub enum Locked {
    /// The lock was held, or the kernel was not behind it: nothing was done.
    Busy,
    /// The dispatcher could not take the call: nothing was done.
    Refused,
    /// The call was handled.
    Done(SyscallOutcome),
}

/// Whether `outcome` is of the kind that system call `id` with `args` ends
/// in: a write request with these arguments for a write, a decision for an
/// exit or a yield, a value for every other call.
pub open spec fn outcome_fits(id: usize, args: [usize; 3], outcome: SyscallOutcome) -> bool {
    if id == SYSCALL_WRITE {
        outcome == (SyscallOutcome::Write { fd: args[0], buf: args[1], len: args[2] })
    } else if id == SYSCALL_EXIT {
        outcome is Exited
    } else if id == SYSCALL_YIELD {
        outcome matches SyscallOutcome::Yielded(d) && d is Switch
    } else {
        outcome is Return
    }
}

/// Calls `spin::mutex::Mutex::new`, which puts the kernel behind a new,
/// open lock. Nothing is claimed of the result.
#[verifier::external_body]
fn new_lock(kernel: Option<Kernel>) -> (cell: spin::mutex::Mutex<Option<Kernel>, spin::relax::Spin>) {
    spin::mutex::Mutex::new(kernel)
}

/// Calls `spin::mutex::Mutex::try_lock`, which returns at once: with the
/// guard if the lock was open, with `None` if it was held. Which of the two
/// comes back depends on who else holds the lock, so nothing is claimed.
#[verifier::external_body]
fn try_lock<'a>(cell: &'a spin::mutex::Mutex<Option<Kernel>, spin::relax::Spin>) -> (guard: Option<
    spin::mutex::MutexGuard<'a, Option<Kernel>>,
>) {
    cell.try_lock()
}

/// Calls `deref_mut` of `spin::mutex::MutexGuard`, which lends out what the
/// lock guards. Nothing is claimed of what is found there beyond its type.
#[verifier::external_body]
fn guarded<'a, 'b>(guard: &'a mut spin::mutex::MutexGuard<'b, Option<Kernel>>) -> (slot: &'a mut Option<
    Kernel,
>) {
    core::ops::DerefMut::deref_mut(guard)
}

/// Puts `kernel` behind a spin lock.
pub fn share(kernel: Kernel) -> (cell: spin::mutex::Mutex<Option<Kernel>, spin::relax::Spin>) {
    new_lock(Some(kernel))
}

/// Handles a system call on the kernel behind `cell`: tries the lock,
/// handles the call on what it guards, and lets it go. What the lock guards
/// is not known here, so the outcome is only classified; what is done for
/// each thing found there is stated by [`syscall_in_slot`].
pub fn syscall_shared(
    cell: &spin::mutex::Mutex<Option<Kernel>, spin::relax::Spin>,
    syscall_id: usize,
    args: [usize; 3],
    us: usize,
) -> (ret: Locked)
    ensures
        ret matches Locked::Done(outcome) ==> supported(syscall_id) && outcome_fits(
            syscall_id,
            args,
            outcome,
        ),
{
    match try_lock(cell) {
        None => Locked::Busy,
        Some(mut guard) => syscall_in_slot(guarded(&mut guard), syscall_id, args, us),
    }
}

/// What handling a system call on the place that the lock guards returns
/// and does. An empty place is left empty and reported as `Busy`. A kernel
/// that can take the call handles it as the dispatcher does and stays in
/// its place; one that cannot stays as it was and the call is `Refused`.
pub open spec fn slot_spec(
    pre: Option<Kernel>,
    post: Option<Kernel>,
    id: usize,
    args: [usize; 3],
    us: usize,
    ret: Locked,
) -> bool {
    match pre {
        None => ret == Locked::Busy && post is None,
        Some(kernel) => post matches Some(left) && (if syscall_ready(kernel@, id, args) {
            ret matches Locked::Done(outcome) && syscall_spec(kernel@, left@, id, args, us, outcome)
        } else {
            ret == Locked::Refused && left@ == kernel@
        }),
    }
}

/// Handles a system call on the place that the lock guards: takes the
/// kernel out, dispatches, and puts the kernel back.
pub fn syscall_in_slot(slot: &mut Option<Kernel>, syscall_id: usize, args: [usize; 3], us: usize) -> (ret:
    Locked)
    ensures
        slot_spec(*old(slot), *final(slot), syscall_id, args, us, ret),
{
    match slot.take() {
        None => Locked::Busy,
        Some(kernel) => {
            let (kernel, out) = kernel.dispatch(syscall_id, args, us);
            *slot = Some(kernel);
            match out {
                Some(outcome) => Locked::Done(outcome),
                None => Locked::Refused,
            }
        },
    }
}

} // verus!
