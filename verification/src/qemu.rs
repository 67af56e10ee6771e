//! The emulator the gateway runs the kernel in: where the kernel image is
//! looked for, the command line, and the control-channel commands.

use vstd::prelude::*;
use vstd::string::StringExecFns;

verus! {

/// The emulator's configuration: its arguments, the kernel image and the
/// control socket.
pub struct QemuManager {
    pub kernel_path: String,
    pub qemu_args: Vec<String>,
    pub qmp_path: String,
}

/// Where the control socket is created.
pub open spec fn qmp_socket_path() -> Seq<char> {
    "/tmp/web-os-qmp.sock"@
}

pub open spec fn release_kernel() -> Seq<char> {
    "target/riscv64gc-unknown-none-elf/release/web-os"@
}

pub open spec fn debug_kernel() -> Seq<char> {
    "target/riscv64gc-unknown-none-elf/debug/web-os"@
}

/// The kernel images looked for, in order: the release build, then the
/// debug build.
pub fn kernel_path_candidates() -> (r: Vec<String>)
    ensures
        r@.len() == 2,
        r@[0]@ == release_kernel(),
        r@[1]@ == debug_kernel(),
{
    let mut r: Vec<String> = Vec::new();
    r.push(String::from_str("target/riscv64gc-unknown-none-elf/release/web-os"));
    r.push(String::from_str("target/riscv64gc-unknown-none-elf/debug/web-os"));
    r
}

/// The first candidate image that exists, given which do (`exists[i]` for
/// candidate `i`); an error telling to build the kernel first when none
/// does.
pub fn resolve_kernel_path(exists: &[bool]) -> (r: Result<String, String>)
    requires
        exists@.len() == 2,
    ensures
        exists@[0] ==> (r matches Ok(p) && p@ == release_kernel()),
        !exists@[0] && exists@[1] ==> (r matches Ok(p) && p@ == debug_kernel()),
        !exists@[0] && !exists@[1] ==> (r matches Err(m) && m@ == "Kernel not found. Run `cargo build` first."@),
{
    let mut c = kernel_path_candidates();
    if exists[0] {
        return Ok(c.swap_remove(0));
    }
    if exists[1] {
        return Ok(c.swap_remove(1));
    }
    Err(String::from_str("Kernel not found. Run `cargo build` first."))
}

/// The control-channel message that runs `command`.
pub open spec fn spec_qmp_command(command: Seq<char>) -> Seq<char> {
    "{\"execute\":\""@ + command + "\"}"@
}

pub fn qmp_command_text(command: &str) -> (r: String)
    ensures
        r@ == spec_qmp_command(command@),
{
    let mut s = String::from_str("{\"execute\":\"");
    s.append(command);
    s.append("\"}");
    s
}

/// What a message read from the control channel is to a command waiting
/// for its reply.
#[derive(Clone, Copy, Debug, PartialEq, Eq, Structural)]
pub enum QmpReply {
    /// The command's reply, reporting success.
    Done,
    /// The command's reply, reporting an error.
    Failed,
    /// Not a reply (an asynchronous event): keep reading.
    Skip,
}

/// Classifies a message by whether it has a `return` member and an
/// `error` member: a message with either is the reply, and an `error`
/// member makes it a failure.
pub fn classify_qmp_reply(has_return: bool, has_error: bool) -> (r: QmpReply)
    ensures
        has_error ==> r == QmpReply::Failed,
        !has_error && has_return ==> r == QmpReply::Done,
        !has_error && !has_return ==> r == QmpReply::Skip,
{
    if has_error {
        QmpReply::Failed
    } else if has_return {
        QmpReply::Done
    } else {
        QmpReply::Skip
    }
}

impl QemuManager {
    /// A manager for the kernel image at `kernel_path`, run with
    /// `qemu_args`, controlled through the usual socket.
    pub fn new(qemu_args: Vec<String>, kernel_path: String) -> (m: Self)
        ensures
            m.qemu_args@ == qemu_args@,
            m.kernel_path@ == kernel_path@,
            m.qmp_path@ == qmp_socket_path(),
    {
        QemuManager { kernel_path, qemu_args, qmp_path: String::from_str("/tmp/web-os-qmp.sock") }
    }

    /// The emulator's arguments: the configured ones, then the kernel
    /// image.
    pub fn command_args(&self) -> (r: Vec<String>)
        ensures
            r@.len() == self.qemu_args@.len() + 1,
            forall|i: int| 0 <= i < self.qemu_args@.len() ==> #[trigger] r@[i]@ == self.qemu_args@[i]@,
            r@[self.qemu_args@.len() as int]@ == self.kernel_path@,
    {
        let mut r: Vec<String> = Vec::new();
        let mut i: usize = 0;
        while i < self.qemu_args.len()
            invariant
                i <= self.qemu_args@.len(),
                r@.len() == i,
                forall|j: int| 0 <= j < i ==> #[trigger] r@[j]@ == self.qemu_args@[j]@,
            decreases self.qemu_args@.len() - i,
        {
            r.push(self.qemu_args[i].clone());
            i = i + 1;
        }
        r.push(self.kernel_path.clone());
        r
    }

    /// The message that resets the machine.
    pub fn reset_command() -> (r: String)
        ensures
            r@ == spec_qmp_command("system_reset"@),
    {
        qmp_command_text("system_reset")
    }

    /// The message that pauses the machine.
    pub fn pause_command() -> (r: String)
        ensures
            r@ == spec_qmp_command("stop"@),
    {
        qmp_command_text("stop")
    }

    /// The message that resumes the machine.
    pub fn resume_command() -> (r: String)
        ensures
            r@ == spec_qmp_command("cont"@),
    {
        qmp_command_text("cont")
    }
}

} // verus!
