//! The processors of the virtual machine.
use vstd::prelude::*;

use crate::error;
use crate::error::BackendError;
use crate::ioctl;
use crate::ioctl::{IoctlArg, VmCommand};
use crate::mmio;
use crate::mmio::{Action, Reply};
use crate::number;
use crate::text;

verus! {

/// A processor: its number and its descriptor.
#[derive(Clone, Copy, Debug, PartialEq, Eq, Structural)]
pub struct Vcpu {
    pub id: u8,
    pub raw_fd: i32,
}

/// The name of the thread that runs the processor with this number.
pub open spec fn thread_name(vm_name: Seq<char>, id: u8) -> Seq<char> {
    vm_name + "_vcpu"@ + number::decimal(id as nat)
}

/// No two processors of a virtual machine with different numbers run in
/// threads of the same name.
pub proof fn lemma_threads_have_their_names(vm_name: Seq<char>, a: u8, b: u8)
    requires
        thread_name(vm_name, a) == thread_name(vm_name, b),
    ensures
        a == b,
{
    let n = (vm_name + "_vcpu"@).len() as int;
    assert(thread_name(vm_name, a).skip(n) =~= number::decimal(a as nat));
    assert(thread_name(vm_name, b).skip(n) =~= number::decimal(b as nat));
    number::lemma_decimal_reads_back(a as nat, u8::MAX as nat);
    number::lemma_decimal_reads_back(b as nat, u8::MAX as nat);
}

/// What becomes of the backend when a processor stops.
#[derive(Debug)]
pub enum VcpuExit {
    /// The process ends with success, after this message.
    Exit { message: String },
    /// The backend cannot go on, after this message.
    Panic { message: String },
}

/// `VcpuExit` with its texts as sequences.
pub enum Stop {
    Exit { message: Seq<char> },
    Panic { message: Seq<char> },
}

impl View for VcpuExit {
    type V = Stop;

    open spec fn view(&self) -> Stop {
        match self {
            VcpuExit::Exit { message } => Stop::Exit { message: message@ },
            VcpuExit::Panic { message } => Stop::Panic { message: message@ },
        }
    }
}

/// What becomes of the backend when running a processor returned `ret`.
pub open spec fn stop_for(name: Seq<char>, ret: i32) -> Stop {
    if ret == 0 {
        Stop::Exit { message: name + " returned 0"@ }
    } else {
        Stop::Panic {
            message: name + " exited with reason "@ + number::signed_decimal(ret as int),
        }
    }
}

impl Vcpu {
    /// The name of the thread that runs the processor.
    pub fn name(&self, vm_name: &str) -> (r: String)
        ensures
            r@ == thread_name(vm_name@, self.id),
    {
        let id = number::write_decimal(self.id as u32);
        text::concat(text::concat(vm_name, "_vcpu").as_str(), id.as_str())
    }

    /// What becomes of the backend when running the processor returned `ret`.
    pub fn run_vcpu(&self, vm_name: &str, ret: i32) -> (r: VcpuExit)
        ensures
            r@ == stop_for(thread_name(vm_name@, self.id), ret),
    {
        let name = self.name(vm_name);
        if ret == 0 {
            VcpuExit::Exit { message: text::concat(name.as_str(), " returned 0") }
        } else {
            let reason = number::write_signed(ret);
            let message = text::concat(name.as_str(), " exited with reason ");
            VcpuExit::Panic { message: text::concat(message.as_str(), reason.as_str()) }
        }
    }

    /// The error for a thread that the system did not start; `said` is what it
    /// said.
    pub fn no_thread(&self, vm_name: &str, said: &str) -> (r: BackendError)
        ensures
            r@ == (error::Failure::System {
                err: thread_name(vm_name@, self.id) + " thread create failed"@,
                val: said@,
            }),
    {
        let name = self.name(vm_name);
        error::system(text::concat(name.as_str(), " thread create failed").as_str(), said)
    }
}

/// The step after the replies `h`: the processors are created in order, until
/// one cannot be.
pub open spec fn vcpu_step(count: u16, h: Seq<mmio::Answer>) -> mmio::Act {
    let n = h.len() as int;
    if n > 0 && creation_failed(h.last()) {
        mmio::Act::Return(
            Err(
                error::Failure::System {
                    err: "create vcpu ioctl failed"@,
                    val: h.last()->error,
                },
            ),
        )
    } else if n < count {
        mmio::Act::Ioctl {
            cmd: ioctl::machine_command(VmCommand::CreateVcpu),
            arg: ioctl::Arg::Value(n as u64),
        }
    } else {
        mmio::Act::Return(Ok(()))
    }
}

/// Whether a processor could not be created: what came back is no descriptor.
pub open spec fn creation_failed(reply: mmio::Answer) -> bool {
    reply matches mmio::Answer::Ioctl { ret, .. } && ret < 0
}

/// The processors that were created.
pub open spec fn created(h: Seq<mmio::Answer>) -> Seq<Vcpu> {
    Seq::new(
        if h.len() > 0 && creation_failed(h.last()) {
            (h.len() - 1) as nat
        } else {
            h.len()
        },
        |i: int| Vcpu { id: (i % 0x100) as u8, raw_fd: h[i]->ret },
    )
}

/// Processors that were all created are as many as there should be, and have
/// the numbers from zero on as far as a byte can tell them apart.
pub proof fn lemma_all_are_created(count: u16, h: Seq<mmio::Answer>)
    requires
        vcpu_step(count, h) == mmio::Act::Return(Ok(())),
        forall|i: int|
            0 <= i < h.len() ==> mmio::fits(#[trigger] vcpu_step(count, h.take(i)), h[i]),
    ensures
        created(h).len() == count,
        forall|i: int| 0 <= i < count ==> (#[trigger] created(h)[i]).id == i % 0x100,
{
    if h.len() > count {
        assert(mmio::fits(vcpu_step(count, h.take(count as int)), h[count as int]));
    }
}

/// The processors are asked for by number, from zero on, until there are
/// enough. One that cannot be created ends it with an error that holds what
/// the system said.
pub proof fn lemma_processors_are_asked_for_in_order(count: u16, h: Seq<mmio::Answer>)
    ensures
        ({
            let step = vcpu_step(count, h);
            let refused = h.len() > 0 && (h.last() matches mmio::Answer::Ioctl { ret, .. } && ret
                < 0);
            &&& refused ==> (step matches mmio::Act::Return(
                Err(error::Failure::System { err, val }),
            ) && err == "create vcpu ioctl failed"@ && val == h.last()->error)
            &&& !refused && h.len() < count ==> (step matches mmio::Act::Ioctl {
                cmd,
                arg: ioctl::Arg::Value(v),
            } && cmd == ioctl::machine_command(VmCommand::CreateVcpu) && v == h.len())
            &&& !refused && h.len() >= count ==> step == mmio::Act::Return(Ok(()))
        }),
{
}

/// Each processor that was created runs through the descriptor that came back
/// for it, and has the number it was asked for by, as far as a byte goes.
pub proof fn lemma_processors_keep_their_descriptors(h: Seq<mmio::Answer>)
    requires
        forall|i: int| 0 <= i < h.len() ==> (#[trigger] h[i]) is Ioctl,
        forall|i: int|
            0 <= i < h.len() - 1 ==> (#[trigger] h[i] matches mmio::Answer::Ioctl { ret, .. } && ret
                >= 0),
    ensures
        created(h).len() == h.filter(
            |e: mmio::Answer| e matches mmio::Answer::Ioctl { ret, .. } && ret >= 0,
        ).len(),
        forall|i: int|
            0 <= i < created(h).len() ==> (h[i] matches mmio::Answer::Ioctl { ret, .. } && ret >= 0
                && (#[trigger] created(h)[i]).raw_fd == ret && created(h)[i].id == i % 0x100),
    decreases h.len(),
{
    reveal(Seq::filter);
    if h.len() > 0 {
        lemma_processors_keep_their_descriptors(h.drop_last());
    }
}

/// The process ends with success exactly if a processor returned zero. What is
/// said begins with the name of its thread, and names any other reason by its
/// number.
pub proof fn lemma_zero_is_success(name: Seq<char>, ret: i32)
    ensures
        ret == 0 ==> (stop_for(name, ret) matches Stop::Exit { message } && message == name
            + " returned 0"@),
        ret != 0 ==> (stop_for(name, ret) matches Stop::Panic { message } && message == name
            + " exited with reason "@ + number::signed_decimal(ret as int)),
{
}

/// The processors of the virtual machine.
#[derive(Debug)]
pub struct Vcpus {
    pub vcpus: Vec<Vcpu>,
    pub vcpu_count: u16,
}

impl Vcpus {
    /// One processor, which is not yet created.
    pub fn new() -> (r: Self)
        ensures
            r.vcpus@ == Seq::<Vcpu>::empty(),
            r.vcpu_count == 1,
    {
        Vcpus { vcpus: Vec::new(), vcpu_count: 1 }
    }

    /// Nothing on the command line concerns the processors.
    pub fn set_argument(&mut self, value: Option<&str>) -> (r: Result<(), crate::argument::Error>)
        ensures
            r is Ok,
            *final(self) == *old(self),
    {
        Ok(())
    }

    /// Starts to create the processors.
    pub fn create_vcpus(&self) -> (r: VcpuCreation)
        ensures
            r.wf(),
            r.count() == self.vcpu_count,
            r.history() == Seq::<mmio::Answer>::empty(),
    {
        let r = VcpuCreation {
            count: self.vcpu_count,
            made: Vec::new(),
            failed: None,
            history: Ghost(Seq::empty()),
        };
        assert(r.made@ =~= created(r.history@));
        r
    }

    /// Takes the processors that were created. One that could not be created
    /// ends the creation, but the others still run.
    pub fn take_created(&mut self, run: VcpuCreation)
        requires
            run.wf(),
            run.next() is Return,
        ensures
            final(self).vcpus@ == old(self).vcpus@ + created(run.history()),
            final(self).vcpu_count == old(self).vcpu_count,
    {
        let mut made = run.made;
        self.vcpus.append(&mut made);
    }
}

/// The creation of the processors.
pub struct VcpuCreation {
    count: u16,
    made: Vec<Vcpu>,
    failed: Option<BackendError>,
    history: Ghost<Seq<mmio::Answer>>,
}

impl VcpuCreation {
    /// How many processors there should be.
    pub closed spec fn count(self) -> u16 {
        self.count
    }

    /// The replies so far.
    pub closed spec fn history(self) -> Seq<mmio::Answer> {
        self.history@
    }

    pub closed spec fn wf(self) -> bool {
        &&& self.made@ == created(self.history@)
        &&& self.made@.len() <= self.count
        &&& match self.failed {
            Some(e) => vcpu_step(self.count, self.history@) == mmio::Act::Return(Err(e@)),
            None => self.history@.len() > 0 ==> !creation_failed(self.history@.last()),
        }
    }

    /// The next step.
    pub open spec fn next(self) -> mmio::Act {
        vcpu_step(self.count(), self.history())
    }

    /// The next step.
    pub fn action(&self) -> (r: Action)
        requires
            self.wf(),
        ensures
            r@ == self.next(),
    {
        match &self.failed {
            Some(e) => Action::Return(Err(e.duplicate())),
            None => {
                let n: usize = self.made.len();
                if n < self.count as usize {
                    Action::Ioctl {
                        cmd: ioctl::machine_cmd(VmCommand::CreateVcpu),
                        arg: IoctlArg::Value(n as u64),
                    }
                } else {
                    Action::Return(Ok(()))
                }
            },
        }
    }

    /// Takes the reply to the step that `action` gave.
    pub fn advance(&mut self, reply: Reply)
        requires
            old(self).wf(),
            mmio::fits(old(self).next(), reply@),
        ensures
            final(self).wf(),
            final(self).count() == old(self).count(),
            final(self).history() == old(self).history().push(reply@),
    {
        let ghost before = self.history@;
        let ghost after = before.push(reply@);
        self.history = Ghost(after);
        assert(after.last() == reply@);
        if let Reply::Ioctl { ret, error, .. } = reply {
            if ret < 0 {
                self.failed = Some(error::system("create vcpu ioctl failed", error.as_str()));
                assert(self.made@ =~= created(after));
            } else {
                let n: usize = self.made.len();
                let id: u8 = (n % 0x100) as u8;
                self.made.push(Vcpu { id, raw_fd: ret });
                assert(self.made@ =~= created(after));
            }
        }
    }
}

} // verus!
