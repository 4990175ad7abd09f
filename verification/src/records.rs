//! The records that `libkrun` keeps of a VM to be.
//!
//! They belong to the process and cannot be looked at, so that a call that
//! changes them leaves no other trace than its status. Each of them is
//! therefore confirmed by a [`Receipt`], which says which call was made and with
//! which arguments. Receipts are made here only, by the functions that make the
//! calls.

use vstd::prelude::*;

verus! {

/// Something to note down in the records of the context `ctx`.
#[derive(Clone, Copy, Debug, PartialEq, Eq, Structural)]
pub enum Note {
    /// The number of vCPUs and the amount of memory (in MiB).
    VmConfig { ctx: u32, cpus: u8, memory: u32 },
    /// That there is no vsock device by default.
    NoImplicitVsock { ctx: u32 },
    /// A vsock device with the given features.
    Vsock { ctx: u32, features: u32 },
}

/// The confirmation that `libkrun` was called in order to note something down.
#[derive(Debug, PartialEq, Eq)]
pub struct Receipt {
    note: Note,
    status: i32,
}

impl Receipt {
    /// What was handed to `libkrun`.
    pub closed spec fn spec_note(self) -> Note {
        self.note
    }

    /// The status that `libkrun` returned.
    pub closed spec fn spec_status(self) -> i32 {
        self.status
    }

    /// What was handed to `libkrun`.
    pub fn note(&self) -> (r: Note)
        ensures
            r == self.spec_note(),
    {
        self.note
    }

    /// The status that `libkrun` returned.
    pub fn status(&self) -> (r: i32)
        ensures
            r == self.spec_status(),
    {
        self.status
    }
}

/// Calls [`krun::krun_set_vm_config`], which notes down the number of vCPUs
/// and the amount of memory for a context.
///
/// The receipt holds the arguments of the call. The status is 0, or `-ENOENT`
/// if there is no such context, or `-EINVAL`, which is reserved for a VM without
/// vCPUs or without memory. Which contexts there are is up to the process and is
/// left unsaid.
#[verifier::external_body]
pub(crate) fn set_vm_config(ctx: u32, cpus: u8, memory: u32) -> (r: Receipt)
    ensures
        r.spec_note() == (Note::VmConfig { ctx, cpus, memory }),
        r.spec_status() == 0 || r.spec_status() == -2 || r.spec_status() == -22,
        r.spec_status() == 0 ==> cpus > 0 && memory > 0,
        r.spec_status() == -22 ==> cpus == 0 || memory == 0,
{
    let status = krun::krun_set_vm_config(ctx, cpus, memory);
    Receipt { note: Note::VmConfig { ctx, cpus, memory }, status }
}

/// Calls [`krun::krun_disable_implicit_vsock`], which notes down for a context
/// that it has no vsock device by default.
///
/// The receipt holds the argument of the call. The status is 0, or `-ENOENT` if
/// there is no such context. Which contexts there are is up to the process and
/// is left unsaid.
#[verifier::external_body]
pub(crate) fn disable_implicit_vsock(ctx: u32) -> (r: Receipt)
    ensures
        r.spec_note() == (Note::NoImplicitVsock { ctx }),
        r.spec_status() == 0 || r.spec_status() == -2,
{
    let status = krun::krun_disable_implicit_vsock(ctx);
    Receipt { note: Note::NoImplicitVsock { ctx }, status }
}

/// Calls [`krun::krun_add_vsock`], which notes down a vsock device for a
/// context.
///
/// The receipt holds the arguments of the call. The status on Linux is `-EINVAL`
/// just for unknown features, of which the known ones are 1 and 2. For known
/// ones it is 0, or `-ENOENT` if there is no such context, or `-EEXIST` if it has
/// a vsock device already. Which contexts there are, and with which devices, is
/// up to the process and is left unsaid.
#[verifier::external_body]
pub(crate) fn add_vsock(ctx: u32, features: u32) -> (r: Receipt)
    ensures
        r.spec_note() == (Note::Vsock { ctx, features }),
        features > 3 ==> r.spec_status() == -22,
        features <= 3 ==> r.spec_status() == 0 || r.spec_status() == -2 || r.spec_status() == -17,
{
    let status = krun::krun_add_vsock(ctx, features);
    Receipt { note: Note::Vsock { ctx, features }, status }
}

} // verus!
