//! The resource limits a verifier runs under.
use vstd::prelude::*;

verus! {

/// Limits on the memory and tables a verifier instance may use.
pub struct SandboxConfig {
    pub memory_limit_bytes: usize,
    pub max_table_elements: u32,
    pub max_instances: u32,
    pub max_tables: u32,
    pub max_memories: u32,
}

impl Default for SandboxConfig {
    fn default() -> (c: Self)
        ensures
            c.memory_limit_bytes == 64 * 1024 * 1024,
            c.max_table_elements == 10_000,
            c.max_instances == 1,
            c.max_tables == 1,
            c.max_memories == 1,
    {
        Self {
            memory_limit_bytes: 64 * 1024 * 1024,
            max_table_elements: 10_000,
            max_instances: 1,
            max_tables: 1,
            max_memories: 1,
        }
    }
}

impl SandboxConfig {
    /// The default limits with the given memory limit.
    pub fn new(memory_limit_bytes: usize) -> (c: Self)
        ensures
            c.memory_limit_bytes == memory_limit_bytes,
            c.max_table_elements == 10_000,
            c.max_instances == 1,
            c.max_tables == 1,
            c.max_memories == 1,
    {
        Self { memory_limit_bytes, ..Default::default() }
    }

    /// Whether a memory may grow to `desired` bytes.
    pub fn memory_growing(&mut self, current: usize, desired: usize, maximum: Option<usize>) -> (ok:
        bool)
        ensures
            ok == (desired <= old(self).memory_limit_bytes),
            *final(self) == *old(self),
    {
        desired <= self.memory_limit_bytes
    }

    /// Whether a table may grow to `desired` elements.
    pub fn table_growing(&mut self, current: usize, desired: usize, maximum: Option<usize>) -> (ok:
        bool)
        ensures
            ok == (desired <= old(self).max_table_elements),
            *final(self) == *old(self),
    {
        desired <= self.max_table_elements as usize
    }
}

} // verus!
