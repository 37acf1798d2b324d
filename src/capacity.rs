//! Capacity figures of a volume, as the operating system reports them, and
//! the snapshot derived from them.

use vstd::prelude::*;

verus! {

/// What one probe of a volume reports: its size and the bytes that an
/// unprivileged caller may still allocate.
#[derive(Clone, Copy, Debug, PartialEq, Eq, Structural)]
pub struct RawCapacity {
    pub total_bytes: u64,
    pub free_bytes: u64,
}

impl RawCapacity {
    /// Figures reported in blocks (the shape of a POSIX `statvfs` result):
    /// the block size, the volume's block count, and the blocks available to
    /// an unprivileged caller. `None` when a product does not fit in 64 bits.
    pub fn from_blocks(block_size: u64, blocks: u64, available_blocks: u64) -> (r: Option<
        RawCapacity,
    >)
        ensures
            r is Some <==> (blocks * block_size <= u64::MAX && available_blocks * block_size
                <= u64::MAX),
            r matches Some(c) ==> c.total_bytes == blocks * block_size && c.free_bytes
                == available_blocks * block_size,
    {
        let total = blocks.checked_mul(block_size);
        let free = available_blocks.checked_mul(block_size);
        match (total, free) {
            (Some(t), Some(f)) => Some(RawCapacity { total_bytes: t, free_bytes: f }),
            _ => None,
        }
    }
}

/// The space of a volume at one instant. The used figure is always derived
/// from the other two.
#[derive(Clone, Copy, Debug, PartialEq, Eq, Structural)]
pub struct SpaceSnapshot {
    pub total_bytes: u64,
    pub free_bytes: u64,
}

impl SpaceSnapshot {
    /// Bytes in use: the total less the free bytes, and zero where the free
    /// figure exceeds the total.
    pub open spec fn used(self) -> nat {
        if self.free_bytes <= self.total_bytes {
            (self.total_bytes - self.free_bytes) as nat
        } else {
            0
        }
    }

    pub fn from_raw(raw: RawCapacity) -> (r: SpaceSnapshot)
        ensures
            r.total_bytes == raw.total_bytes,
            r.free_bytes == raw.free_bytes,
    {
        SpaceSnapshot { total_bytes: raw.total_bytes, free_bytes: raw.free_bytes }
    }

    pub fn used_bytes(&self) -> (r: u64)
        ensures
            r == self.used(),
    {
        self.total_bytes.saturating_sub(self.free_bytes)
    }

    /// Whether the free figure exceeds the total, which no consistent report
    /// of a volume does.
    pub fn is_anomalous(&self) -> (r: bool)
        ensures
            r == (self.free_bytes > self.total_bytes),
    {
        self.free_bytes > self.total_bytes
    }
}

/// Used and free bytes make up the total whenever the report is consistent;
/// otherwise the used figure is zero rather than a wrapped-around value.
pub proof fn lemma_snapshot_accounting(s: SpaceSnapshot)
    ensures
        s.free_bytes <= s.total_bytes ==> s.used() + s.free_bytes == s.total_bytes,
        s.free_bytes > s.total_bytes ==> s.used() == 0,
{
}

} // verus!
