//! Threads and the states a thread goes through.

use vstd::prelude::*;
use crate::{ExitCode, Tid};

verus! {

/// State of a thread that a pool has registered.
#[derive(Clone, Copy, Debug, PartialEq, Eq, Structural)]
pub enum Status {
    /// Waiting in the ready ordering for the processor.
    Ready,
    /// Handed out to run on the processor.
    Running,
    /// Waiting to be woken.
    Sleeping,
    /// Terminated with the given exit code; its slot may be given away.
    Exited(ExitCode),
}

impl Status {
    /// Ready, running or sleeping: the thread still owns its slot.
    pub open spec fn is_live(self) -> bool {
        self == Status::Ready || self == Status::Running || self == Status::Sleeping
    }
}

/// What a thread executes, as a mathematical value.
pub enum ProgramView {
    /// Kernel code that starts at `entry`.
    Kernel { entry: usize },
    /// A user program loaded from `image`.
    User { image: Seq<u8> },
}

/// A thread as a mathematical value.
pub struct ThreadView {
    /// Identifier, present once a pool has registered the thread.
    pub tid: Option<Tid>,
    /// What the thread executes.
    pub program: ProgramView,
    /// The three initial arguments.
    pub args: Seq<usize>,
    /// The thread that created this one, if one did.
    pub host: Option<Tid>,
}

impl ThreadView {
    /// The same thread, registered under `tid`.
    pub open spec fn registered(self, tid: Tid) -> ThreadView {
        ThreadView { tid: Some(tid), ..self }
    }

    /// The same thread with other initial arguments.
    pub open spec fn with_args(self, args: Seq<usize>) -> ThreadView {
        ThreadView { args, ..self }
    }
}

/// What a thread executes.
#[derive(Debug)]
pub enum Program {
    /// Kernel code that starts at `entry`.
    Kernel { entry: usize },
    /// A user program loaded from `image`.
    User { image: Vec<u8> },
}

impl View for Program {
    type V = ProgramView;

    open spec fn view(&self) -> ProgramView {
        match self {
            Program::Kernel { entry } => ProgramView::Kernel { entry: *entry },
            Program::User { image } => ProgramView::User { image: image@ },
        }
    }
}

/// An execution context: kernel code entered at a given address, or a user
/// program built from a loaded image.
#[derive(Debug)]
pub struct Thread {
    tid: Option<Tid>,
    program: Program,
    args: [usize; 3],
    host: Option<Tid>,
}

impl View for Thread {
    type V = ThreadView;

    closed spec fn view(&self) -> ThreadView {
        ThreadView { tid: self.tid, program: self.program@, args: self.args@, host: self.host }
    }
}

impl Thread {
    /// A kernel thread that starts at `entry`, with all arguments zero, no
    /// identifier and no host.
    pub fn new_kernel(entry: usize) -> (thread: Thread)
        ensures
            thread@ == (ThreadView {
                tid: None,
                program: ProgramView::Kernel { entry },
                args: seq![0usize, 0usize, 0usize],
                host: None,
            }),
    {
        let thread = Thread {
            tid: None,
            program: Program::Kernel { entry },
            args: [0usize, 0usize, 0usize],
            host: None,
        };
        thread
    }

    /// A user thread for the program in `image`, created by `host_tid` if that
    /// is given, with all arguments zero and no identifier.
    pub fn new_user(image: Vec<u8>, host_tid: Option<Tid>) -> (thread: Thread)
        ensures
            thread@ == (ThreadView {
                tid: None,
                program: ProgramView::User { image: image@ },
                args: seq![0usize, 0usize, 0usize],
                host: host_tid,
            }),
    {
        let thread = Thread {
            tid: None,
            program: Program::User { image },
            args: [0usize, 0usize, 0usize],
            host: host_tid,
        };
        thread
    }

    /// Sets the three arguments the thread starts with.
    pub fn append_initial_arguments(&mut self, args: [usize; 3])
        ensures
            final(self)@ == old(self)@.with_args(args@),
    {
        self.args = args;
    }

    /// Records the identifier a pool has given to the thread.
    pub(crate) fn register(&mut self, tid: Tid)
        ensures
            final(self)@ == old(self)@.registered(tid),
    {
        self.tid = Some(tid);
    }

    /// The identifier, once a pool has registered the thread.
    pub fn tid(&self) -> (tid: Option<Tid>)
        ensures
            tid == self@.tid,
    {
        self.tid
    }

    /// The thread that created this one, if one did.
    pub fn host(&self) -> (host: Option<Tid>)
        ensures
            host == self@.host,
    {
        self.host
    }

    /// Whether the thread runs a user program.
    pub fn is_user(&self) -> (user: bool)
        ensures
            user == (self@.program is User),
    {
        match &self.program {
            Program::Kernel { .. } => false,
            Program::User { .. } => true,
        }
    }

    /// What the thread executes.
    pub fn program(&self) -> (program: &Program)
        ensures
            program@ == self@.program,
    {
        &self.program
    }

    /// The three initial arguments.
    pub fn arguments(&self) -> (args: [usize; 3])
        ensures
            args@ == self@.args,
    {
        self.args
    }
}

} // verus!
