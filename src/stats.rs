use vstd::prelude::*;

verus! {

/// Byte counts of one compression pass.
#[derive(Debug, Clone, Copy, PartialEq, Eq)]
pub struct Stats {
    /// Files compressed.
    pub count: u64,
    /// Bytes before compression.
    pub in_bytes: u64,
    /// Bytes after compression.
    pub out_bytes: u64,
}

pub open spec fn saturated(x: int) -> u64 {
    if x > u64::MAX { u64::MAX } else { x as u64 }
}

impl Stats {
    /// No file compressed yet.
    pub fn new() -> (r: Stats)
        ensures
            r.count == 0 && r.in_bytes == 0 && r.out_bytes == 0,
    {
        Stats { count: 0, in_bytes: 0, out_bytes: 0 }
    }

    /// Counts one compressed file of `in_len` bytes that became `out_len`
    /// bytes; each count stops at the largest `u64`.
    pub fn record(&mut self, in_len: u64, out_len: u64)
        ensures
            final(self).count == saturated(old(self).count + 1),
            final(self).in_bytes == saturated(old(self).in_bytes + in_len),
            final(self).out_bytes == saturated(old(self).out_bytes + out_len),
    {
        self.count = self.count.saturating_add(1);
        self.in_bytes = self.in_bytes.saturating_add(in_len);
        self.out_bytes = self.out_bytes.saturating_add(out_len);
    }

    /// Bytes saved: negative where compression grew the files.
    pub fn saved(&self) -> (r: i128)
        ensures
            r == self.in_bytes - self.out_bytes,
    {
        self.in_bytes as i128 - self.out_bytes as i128
    }
}

} // verus!
