use vstd::prelude::*;

verus! {

/// The ways decoding and exporting can fail.
///
/// Offsets count bytes from the start of the buffer handed to the failing
/// call.
#[derive(Debug, Clone, Copy, PartialEq, Eq, Structural)]
pub enum XrainError {
    /// A read of a field needed more bytes than remained; `offset` is where
    /// the field starts.
    InsufficientData { offset: usize },
    /// A fixed field held the wrong constant, or a run declared a count of
    /// zero; `offset` is where the field starts.
    FormatViolation { offset: usize },
    /// A cell was offered to a block that already holds 1600 cells.
    CapacityExceeded,
    /// A block was exported while holding other than 1600 cells.
    IncompleteMesh,
}

impl XrainError {
    /// The same error, with its offset moved on by `base` bytes.
    pub open spec fn spec_shifted(self, base: int) -> XrainError {
        match self {
            XrainError::InsufficientData { offset } => XrainError::InsufficientData {
                offset: (offset + base) as usize,
            },
            XrainError::FormatViolation { offset } => XrainError::FormatViolation {
                offset: (offset + base) as usize,
            },
            other => other,
        }
    }

    /// The offset the error carries, if any.
    pub open spec fn spec_offset(self) -> int {
        match self {
            XrainError::InsufficientData { offset } => offset as int,
            XrainError::FormatViolation { offset } => offset as int,
            _ => 0,
        }
    }

    /// Re-bases an error raised on a sub-slice that starts `base` bytes into
    /// the caller's buffer.
    pub fn shifted(self, base: usize) -> (r: XrainError)
        requires
            self.spec_offset() + base <= usize::MAX,
        ensures
            r == self.spec_shifted(base as int),
    {
        match self {
            XrainError::InsufficientData { offset } => XrainError::InsufficientData {
                offset: offset + base,
            },
            XrainError::FormatViolation { offset } => XrainError::FormatViolation {
                offset: offset + base,
            },
            other => other,
        }
    }
}

} // verus!
