//! Memory that belongs to tasks, as the kernel deals with it.

use vstd::prelude::*;

use crate::abi::{FaultInfo, UsageError};

verus! {

/// A range of addresses that a task has named. That it was named does not mean
/// that the task may touch it.
#[derive(Clone, Copy, Debug, PartialEq, Eq, Structural)]
pub struct USlice {
    pub base: u32,
    pub length: u32,
}

impl USlice {
    /// Whether the address one past the end can be written down.
    pub open spec fn wf(self) -> bool {
        self.base + self.length <= u32::MAX
    }

    /// The range of `length` bytes at `base`, which must not run over the end of
    /// the address space.
    pub fn from_raw(base: u32, length: u32) -> (r: Result<USlice, UsageError>)
        ensures
            r == if base + length <= u32::MAX {
                Ok(USlice { base, length })
            } else {
                Err(UsageError::InvalidSlice)
            },
            r matches Ok(slice) ==> slice.wf(),
    {
        if base <= u32::MAX - length {
            Ok(USlice { base, length })
        } else {
            Err(UsageError::InvalidSlice)
        }
    }

    /// The address one past the end.
    pub fn end_addr(&self) -> (r: u32)
        requires
            self.wf(),
        ensures
            r == self.base + self.length,
    {
        self.base + self.length
    }
}

/// What the kernel got when it asked for a range of a task's memory: the bytes in
/// it, or the fault of a task that named memory which is not its own.
#[derive(Debug, PartialEq, Eq)]
pub enum Window {
    Granted(Vec<u8>),
    Denied(FaultInfo),
}

impl View for Window {
    type V = Result<Seq<u8>, FaultInfo>;

    open spec fn view(&self) -> Result<Seq<u8>, FaultInfo> {
        match *self {
            Window::Granted(bytes) => Ok(bytes@),
            Window::Denied(fault) => Err(fault),
        }
    }
}

/// The control block of a task, as it lay in kernel memory when the message came
/// in that is being served: where it is, and what was in it.
#[derive(Debug, PartialEq, Eq)]
pub struct TcbImage {
    base: u32,
    bytes: Vec<u8>,
}

impl TcbImage {
    pub closed spec fn spec_base(self) -> u32 {
        self.base
    }

    pub closed spec fn spec_bytes(self) -> Seq<u8> {
        self.bytes@
    }

    /// A control block never lies up against the top of the address space.
    #[verifier::type_invariant]
    pub open spec fn wf(self) -> bool {
        self.spec_base() + self.spec_bytes().len() <= u32::MAX
    }

    pub fn new(base: u32, bytes: Vec<u8>) -> (r: Option<TcbImage>)
        ensures
            r is Some <==> base + bytes@.len() <= u32::MAX,
            base + bytes@.len() < 0x1_0000_0000 ==> r is Some,
            r matches Some(image) ==> image.wf() && image.spec_base() == base && image.spec_bytes()
                == bytes@,
    {
        let room: u32 = u32::MAX - base;
        if bytes.len() <= room as usize {
            Some(TcbImage { base, bytes })
        } else {
            None
        }
    }

    pub fn base_addr(&self) -> (r: u32)
        ensures
            r == self.spec_base(),
    {
        self.base
    }

    /// The address one past the end.
    pub fn end_addr(&self) -> (r: u32)
        ensures
            self.wf(),
            r == self.spec_base() + self.spec_bytes().len(),
    {
        proof {
            use_type_invariant(self);
        }
        self.base + self.bytes.len() as u32
    }

    pub fn size(&self) -> (r: u32)
        ensures
            self.wf(),
            r == self.spec_bytes().len(),
    {
        proof {
            use_type_invariant(self);
        }
        self.bytes.len() as u32
    }

    pub fn bytes(&self) -> (r: &Vec<u8>)
        ensures
            r@ == self.spec_bytes(),
    {
        &self.bytes
    }
}

} // verus!
