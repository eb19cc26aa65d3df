//! The per-I/O completion block and the overlapped-handle contract.
//!
//! A completion block is a fixed-layout record the kernel fills in for each
//! I/O operation: two opaque status words, a 64-bit stream offset carried as
//! two 32-bit halves, an optional auxiliary event handle, and a direction tag
//! so one callback can fan out to the read or the write driver.

use vstd::prelude::*;

verus! {

/// Which driver a completion belongs to.
#[derive(Debug, Copy, Clone, PartialEq, Eq, Structural)]
pub enum OverlappedKind {
    Read,
    Write,
}

/// The per-I/O completion block.
#[derive(Debug, Copy, Clone, PartialEq, Eq, Structural)]
pub struct Overlapped {
    /// Opaque kernel status word.
    pub internal: usize,
    /// Opaque kernel status word.
    pub internal_high: usize,
    /// Low half of the stream offset.
    pub offset: u32,
    /// High half of the stream offset.
    pub offset_high: u32,
    /// Raw value of an optional auxiliary event handle.
    pub hevent: usize,
    /// Direction tag: dispatches the shared callback to one driver.
    pub kind: OverlappedKind,
}

impl Overlapped {
    /// The 64-bit stream offset carried by the two halves.
    pub open spec fn spec_offset(&self) -> int {
        self.offset + self.offset_high * 0x1_0000_0000
    }

    pub fn new(hevent: usize, offset: u64, kind: OverlappedKind) -> (r: Overlapped)
        ensures
            r.spec_offset() == offset,
            r.kind == kind,
            r.hevent == hevent,
            r.internal == 0,
            r.internal_high == 0,
    {
        let lo = (offset & 0xFFFF_FFFF) as u32;
        let hi = (offset >> 32) as u32;
        proof {
            assert((offset & 0xFFFF_FFFF) as u32 + ((offset >> 32) as u32) * 0x1_0000_0000
                == offset) by (bit_vector);
        }
        Overlapped { internal: 0, internal_high: 0, offset: lo, offset_high: hi, hevent, kind }
    }

    pub fn new_read(offset: u64) -> (r: Overlapped)
        ensures
            r.spec_offset() == offset,
            r.kind == OverlappedKind::Read,
    {
        Overlapped::new(0, offset, OverlappedKind::Read)
    }

    pub fn new_write(offset: u64) -> (r: Overlapped)
        ensures
            r.spec_offset() == offset,
            r.kind == OverlappedKind::Write,
    {
        Overlapped::new(0, offset, OverlappedKind::Write)
    }

    pub fn set_offset(&mut self, offset: u64)
        ensures
            final(self).spec_offset() == offset,
            final(self).kind == old(self).kind,
            final(self).hevent == old(self).hevent,
            final(self).internal == old(self).internal,
            final(self).internal_high == old(self).internal_high,
    {
        let lo = (offset & 0xFFFF_FFFF) as u32;
        let hi = (offset >> 32) as u32;
        proof {
            assert((offset & 0xFFFF_FFFF) as u32 + ((offset >> 32) as u32) * 0x1_0000_0000
                == offset) by (bit_vector);
        }
        self.offset = lo;
        self.offset_high = hi;
    }

    pub fn get_offset(&self) -> (r: u64)
        ensures
            r == self.spec_offset(),
    {
        let lo = self.offset;
        let hi = self.offset_high;
        proof {
            assert(lo as u64 + ((hi as u64) << 32u64) == lo + hi * 0x1_0000_0000)
                by (bit_vector);
        }
        lo as u64 + ((hi as u64) << 32u64)
    }
}

/// How an overlapped operation can end without transferring bytes.
#[derive(Debug, Clone, PartialEq, Eq)]
pub enum OverlappedError {
    /// A kernel error, by its system error code.
    Os(i32),
    /// A failure that carries no system error code, by its message.
    CustomIo(String),
    /// The operation will complete asynchronously: a control signal for the
    /// driver, not a user-visible failure.
    Pending,
    /// The far end of the byte channel is closed.
    Eof,
}

impl OverlappedError {
    /// Short description, for embedding programs that render errors.
    pub fn describe(&self) -> &'static str {
        match self {
            OverlappedError::Os(_) => "I/O kernel error",
            OverlappedError::CustomIo(_) => "I/O error",
            OverlappedError::Pending => "I/O pending",
            OverlappedError::Eof => "I/O end of file",
        }
    }
}

} // verus!
