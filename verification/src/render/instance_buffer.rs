//! The buffers that hold the instances of a scene, and their growth.

use vstd::prelude::*;

verus! {

/// The size of the first instance buffers, two mebibytes.
pub const INITIAL_INSTANCE_BUFFER_SIZE: usize = 2_097_152;

/// The size from which on instance buffers do not grow, 256 mebibytes.
pub const MAX_INSTANCE_BUFFER_SIZE: usize = 268_435_456;

/// Where the instances of a draw may start.
pub const INSTANCE_ALIGNMENT: usize = 256;

/// The first multiple of an alignment that is not below a value.
pub open spec fn aligned(value: nat, alignment: nat) -> nat {
    ((value + alignment - 1) / (alignment as int) * alignment) as nat
}

/// The first multiple of an alignment that is not below a value.
pub fn align_to(value: usize, alignment: usize) -> (multiple: usize)
    requires
        alignment > 0,
        aligned(value as nat, alignment as nat) <= usize::MAX,
    ensures
        multiple == aligned(value as nat, alignment as nat),
{
    let rest: usize = value % alignment;
    proof {
        lemma_aligned(value as int, alignment as int);
    }
    if rest == 0 {
        value
    } else {
        value - rest + alignment
    }
}

proof fn lemma_aligned(value: int, alignment: int)
    requires
        0 <= value,
        alignment > 0,
    ensures
        aligned(value as nat, alignment as nat) == if value % alignment == 0 {
            value
        } else {
            value - value % alignment + alignment
        },
        value >= value % alignment,
{
    let whole = value / alignment;
    let rest = value % alignment;
    vstd::arithmetic::div_mod::lemma_fundamental_div_mod(value, alignment);
    assert(value == alignment * whole + rest);
    assert(0 <= whole) by (nonlinear_arith)
        requires
            value == alignment * whole + rest,
            0 <= value,
            rest < alignment,
            alignment > 0,
    ;
    assert(alignment * whole >= 0) by (nonlinear_arith)
        requires
            whole >= 0,
            alignment > 0,
    ;
    if rest == 0 {
        assert((value + alignment - 1) / alignment == whole) by (nonlinear_arith)
            requires
                value == alignment * whole,
                alignment > 0,
        ;
        assert(whole * alignment == value) by (nonlinear_arith)
            requires
                value == alignment * whole,
        ;
    } else {
        assert((value + alignment - 1) / alignment == whole + 1) by (nonlinear_arith)
            requires
                value == alignment * whole + rest,
                0 < rest < alignment,
        ;
        assert((whole + 1) * alignment == alignment * whole + alignment) by (nonlinear_arith);
    }
}

/// The first multiple of an alignment at or above a value: a multiple, no more
/// than one alignment above the value, and below every other such multiple.
pub proof fn law_alignment_is_least(value: nat, alignment: nat, factor: nat)
    requires
        alignment > 0,
    ensures
        aligned(value, alignment) % alignment == 0,
        value <= aligned(value, alignment) < value + alignment,
        value <= factor * alignment ==> aligned(value, alignment) <= factor * alignment,
{
    let up = (value + alignment - 1) as int;
    let size = alignment as int;
    let count = up / size;
    vstd::arithmetic::div_mod::lemma_fundamental_div_mod(up, size);
    assert(count >= 0) by (nonlinear_arith)
        requires
            up == size * count + up % size,
            0 <= up,
            up % size < size,
            size > 0,
    ;
    assert(count * size == size * count) by (nonlinear_arith);
    assert((count * size) % size == 0) by (nonlinear_arith)
        requires
            size > 0,
            count >= 0,
    ;
    assert(count * size >= 0) by (nonlinear_arith)
        requires
            size > 0,
            count >= 0,
    ;
    if value <= factor * alignment {
        assert(count <= factor) by (nonlinear_arith)
            requires
                up == size * count + up % size,
                0 <= up % size,
                up == value + size - 1,
                value <= factor * size,
                size > 0,
        ;
        assert(count * size <= factor * size) by (nonlinear_arith)
            requires
                count <= factor,
                size > 0,
        ;
    }
}

/// Moves an offset to where instances may start.
pub fn align_offset(offset: &mut usize)
    requires
        aligned(*old(offset) as nat, INSTANCE_ALIGNMENT as nat) <= usize::MAX,
    ensures
        *final(offset) == aligned(*old(offset) as nat, INSTANCE_ALIGNMENT as nat),
{
    *offset = align_to(*offset, INSTANCE_ALIGNMENT);
}

/// How memory is shared with the GPU.
#[derive(Clone, Copy, Debug, PartialEq, Eq, Structural)]
pub enum BufferStorage {
    /// One memory for both, which only the GPU reads.
    SharedWriteCombined,
    /// Each has a copy.
    Managed,
}

/// How a buffer is made that the program writes and the GPU reads.
pub open spec fn storage_for(unified_memory: bool) -> BufferStorage {
    if unified_memory {
        BufferStorage::SharedWriteCombined
    } else {
        BufferStorage::Managed
    }
}

/// How a buffer is made that the program writes and the GPU reads.
pub fn buffer_storage(unified_memory: bool) -> (storage: BufferStorage)
    ensures
        storage == storage_for(unified_memory),
{
    if unified_memory {
        BufferStorage::SharedWriteCombined
    } else {
        BufferStorage::Managed
    }
}

/// A buffer in use, with the size that the pool gave out when it was acquired.
pub struct InstanceBuffer<B> {
    pub buffer: B,
    pub size: usize,
}

/// Where a buffer comes from.
pub enum AcquiredBuffer<B> {
    /// One that was used before.
    Reused(InstanceBuffer<B>),
    /// One that has to be made.
    Create { size: usize, storage: BufferStorage },
}

/// Buffers of one size that are not in use.
pub struct InstanceBufferPool<B> {
    pub buffer_size: usize,
    pub buffers: Vec<B>,
}

/// Buffers cannot grow any more.
#[derive(Clone, Copy, Debug, PartialEq, Eq, Structural)]
pub struct InstanceBufferTooLarge {
    pub size: usize,
}

impl<B> InstanceBufferPool<B> {
    /// A pool without buffers.
    pub fn new() -> (pool: Self)
        ensures
            pool.buffer_size == INITIAL_INSTANCE_BUFFER_SIZE,
            pool.buffers@.len() == 0,
    {
        InstanceBufferPool { buffer_size: INITIAL_INSTANCE_BUFFER_SIZE, buffers: Vec::new() }
    }

    /// Starts over with buffers of another size.
    pub fn reset(&mut self, buffer_size: usize)
        ensures
            final(self).buffer_size == buffer_size,
            final(self).buffers@.len() == 0,
    {
        self.buffer_size = buffer_size;
        self.buffers = Vec::new();
    }

    /// Takes the buffer that was released last, or says how to make one.
    pub fn acquire(&mut self, unified_memory: bool) -> (acquired: AcquiredBuffer<B>)
        ensures
            final(self).buffer_size == old(self).buffer_size,
            if old(self).buffers@.len() > 0 {
                &&& acquired == AcquiredBuffer::Reused(
                    (InstanceBuffer {
                        buffer: old(self).buffers@.last(),
                        size: old(self).buffer_size,
                    }),
                )
                &&& final(self).buffers@ == old(self).buffers@.drop_last()
            } else {
                &&& acquired == (AcquiredBuffer::<B>::Create {
                    size: old(self).buffer_size,
                    storage: storage_for(unified_memory),
                })
                &&& final(self).buffers@ == old(self).buffers@
            },
    {
        match self.buffers.pop() {
            Some(buffer) => AcquiredBuffer::Reused(
                InstanceBuffer { buffer, size: self.buffer_size },
            ),
            None => AcquiredBuffer::Create {
                size: self.buffer_size,
                storage: buffer_storage(unified_memory),
            },
        }
    }

    /// Gives a buffer back: one of another size than the pool has now is dropped.
    pub fn release(&mut self, buffer: InstanceBuffer<B>)
        ensures
            final(self).buffer_size == old(self).buffer_size,
            final(self).buffers@ == if buffer.size == old(self).buffer_size {
                old(self).buffers@.push(buffer.buffer)
            } else {
                old(self).buffers@
            },
    {
        if buffer.size == self.buffer_size {
            self.buffers.push(buffer.buffer);
        }
    }

    /// Doubles the size of the buffers, up to a limit.
    pub fn grow(&mut self) -> (result: Result<(), InstanceBufferTooLarge>)
        ensures
            if old(self).buffer_size >= MAX_INSTANCE_BUFFER_SIZE {
                &&& result == Err::<(), InstanceBufferTooLarge>(
                    (InstanceBufferTooLarge { size: old(self).buffer_size }),
                )
                &&& *final(self) == *old(self)
            } else {
                &&& result is Ok
                &&& final(self).buffer_size == 2 * old(self).buffer_size
                &&& final(self).buffers@.len() == 0
            },
    {
        if self.buffer_size >= MAX_INSTANCE_BUFFER_SIZE {
            return Err(InstanceBufferTooLarge { size: self.buffer_size });
        }
        let size: usize = self.buffer_size * 2;
        self.reset(size);
        Ok(())
    }
}

impl<B> Default for InstanceBufferPool<B> {
    fn default() -> (pool: Self)
        ensures
            pool.buffer_size == INITIAL_INSTANCE_BUFFER_SIZE,
            pool.buffers@.len() == 0,
    {
        InstanceBufferPool::new()
    }
}

} // verus!
