//! Pools of device buffers.
use vstd::prelude::*;
use std::collections::HashMap;
use crate::device::{BufferHandle, BufferKind, Command, GpuContext};
use crate::view::BufferId;

verus! {

/// Why the memory manager, or one of its pools, turned a request down.
#[derive(Clone, Copy, Debug, PartialEq, Eq, Structural)]
#[allow(inconsistent_fields)]
pub enum MemoryError {
    /// The pool has minted every identifier it has; it allocates no more.
    IdsExhausted { kind: BufferKind },
    /// No live buffer of the resident pool bears the identifier.
    MissingBuffer { id: BufferId },
    /// The buffer is too small for the bytes that were to be written.
    OutOfBounds { id: BufferId, capacity: usize, requested: usize },
    /// The device rejected the allocation of the buffer, for want of
    /// memory or for another reason of its own. The buffer is not live.
    AllocationFailed { buffer: BufferHandle },
    /// The device rejected the copy between the two buffers.
    CopyFailed { src: BufferHandle, dst: BufferHandle },
}

/// What an operation of the model yields: the state after it, the
/// commands it records, and its result.
pub struct Outcome<S, R> {
    pub state: S,
    pub commands: Seq<Command>,
    pub result: R,
}

/// A pool as a mathematical value: its usage class, the identifier it
/// mints next, and the size of each live buffer by identifier.
pub struct PoolModel {
    pub kind: BufferKind,
    pub next_id: u64,
    pub sizes: Map<u64, usize>,
}

impl PoolModel {
    /// Every live identifier was minted before: none is handed out
    /// again.
    pub open spec fn wf(self) -> bool {
        forall|id: u64| self.sizes.contains_key(id) ==> id < self.next_id
    }

    /// The empty pool of a usage class.
    pub open spec fn empty(kind: BufferKind) -> PoolModel {
        PoolModel { kind, next_id: 0, sizes: Map::empty() }
    }

    /// Whether a buffer with this identifier is live.
    pub open spec fn contains(self, id: BufferId) -> bool {
        self.sizes.contains_key(id.0)
    }

    /// The handle of a live buffer.
    pub open spec fn handle(self, id: BufferId) -> BufferHandle {
        BufferHandle { kind: self.kind, id, size: self.sizes[id.0] }
    }

    /// The handle of the buffer with this identifier, where one is live.
    pub open spec fn get(self, id: BufferId) -> Option<BufferHandle> {
        if self.contains(id) {
            Some(self.handle(id))
        } else {
            None
        }
    }

    /// The handle that the next allocation of `size` bytes gives out.
    pub open spec fn next_handle(self, size: usize) -> BufferHandle {
        BufferHandle { kind: self.kind, id: BufferId(self.next_id), size }
    }

    /// Allocation: a fresh identifier and a fresh buffer, unless the
    /// identifiers have run out.
    pub open spec fn create_buffer(self, size: usize) -> Outcome<
        PoolModel,
        Result<BufferHandle, MemoryError>,
    > {
        if self.next_id < u64::MAX {
            Outcome {
                state: PoolModel {
                    kind: self.kind,
                    next_id: (self.next_id + 1) as u64,
                    sizes: self.sizes.insert(self.next_id, size),
                },
                commands: seq![Command::CreateBuffer { buffer: self.next_handle(size) }],
                result: Ok(self.next_handle(size)),
            }
        } else {
            Outcome {
                state: self,
                commands: Seq::empty(),
                result: Err(MemoryError::IdsExhausted { kind: self.kind }),
            }
        }
    }

    /// The pool without the entry of a buffer that the device never
    /// made. Nothing is recorded: there is nothing to give up.
    pub open spec fn forget(self, id: BufferId) -> PoolModel {
        PoolModel { kind: self.kind, next_id: self.next_id, sizes: self.sizes.remove(id.0) }
    }

    /// Release: the entry goes and the buffer is given up; an unknown
    /// identifier changes nothing.
    pub open spec fn release_buffer(self, id: BufferId) -> Outcome<PoolModel, ()> {
        if self.contains(id) {
            Outcome {
                state: PoolModel {
                    kind: self.kind,
                    next_id: self.next_id,
                    sizes: self.sizes.remove(id.0),
                },
                commands: seq![Command::DestroyBuffer { buffer: self.handle(id) }],
                result: (),
            }
        } else {
            Outcome { state: self, commands: Seq::empty(), result: () }
        }
    }
}

/// Owns the buffers of one usage class and hands out their identifiers.
pub struct BufferPool {
    usage: BufferKind,
    next_id: u64,
    entries: HashMap<u64, usize>,
}

impl View for BufferPool {
    type V = PoolModel;

    closed spec fn view(&self) -> PoolModel {
        PoolModel { kind: self.usage, next_id: self.next_id, sizes: self.entries@ }
    }
}

impl BufferPool {
    /// An empty pool of a usage class.
    pub fn new(usage: BufferKind) -> (pool: Self)
        ensures
            pool@ == PoolModel::empty(usage),
            pool@.wf(),
    {
        BufferPool { usage, next_id: 0, entries: HashMap::new() }
    }

    /// Allocates a buffer of `size_bytes` under a fresh identifier and
    /// records its creation. Fails, and changes nothing, only where the
    /// pool has no identifier left. Whether the device grants the
    /// allocation shows when the backend performs the command; where it
    /// does not, `allocation_rejected` takes note of it.
    pub fn create_buffer(&mut self, ctx: &mut GpuContext, size_bytes: usize) -> (r: Result<
        BufferHandle,
        MemoryError,
    >)
        ensures
            final(self)@ == old(self)@.create_buffer(size_bytes).state,
            final(ctx)@ == old(ctx)@ + old(self)@.create_buffer(size_bytes).commands,
            r == old(self)@.create_buffer(size_bytes).result,
            old(self)@.wf() ==> final(self)@.wf(),
    {
        if self.next_id == u64::MAX {
            assert(ctx@ + Seq::<Command>::empty() == ctx@);
            return Err(MemoryError::IdsExhausted { kind: self.usage });
        }
        let handle = BufferHandle { kind: self.usage, id: BufferId(self.next_id), size: size_bytes };
        ctx.create_buffer(handle);
        let id: u64 = self.next_id;
        self.next_id = id + 1;
        self.entries.insert(id, size_bytes);
        assert(ctx@ == old(ctx)@ + seq![Command::CreateBuffer { buffer: handle }]);
        Ok(handle)
    }

    /// The handle of the buffer with this identifier; nothing for an
    /// identifier that was never minted or was released.
    pub fn get(&self, id: BufferId) -> (handle: Option<BufferHandle>)
        ensures
            handle == self@.get(id),
    {
        match self.entries.get(&id.0) {
            Some(size) => Some(BufferHandle { kind: self.usage, id, size: *size }),
            None => None,
        }
    }

    /// The size in bytes of the buffer with this identifier.
    pub fn get_buffer_size(&self, id: BufferId) -> (size: Option<usize>)
        ensures
            size == match self@.get(id) {
                Some(handle) => Some(handle.size),
                None => None,
            },
    {
        match self.entries.get(&id.0) {
            Some(size) => Some(*size),
            None => None,
        }
    }

    /// Releases the buffer with this identifier and records that it is
    /// given up. An identifier that names no live buffer changes
    /// nothing.
    pub fn release_buffer(&mut self, ctx: &mut GpuContext, id: BufferId)
        ensures
            final(self)@ == old(self)@.release_buffer(id).state,
            final(ctx)@ == old(ctx)@ + old(self)@.release_buffer(id).commands,
            old(self)@.wf() ==> final(self)@.wf(),
    {
        match self.get(id) {
            Some(handle) => {
                self.entries.remove(&id.0);
                ctx.destroy_buffer(handle);
                assert(ctx@ == old(ctx)@ + seq![Command::DestroyBuffer { buffer: handle }]);
            },
            None => {
                assert(ctx@ + Seq::<Command>::empty() == ctx@);
            },
        }
    }

    /// Takes note that the device rejected the allocation of the buffer
    /// with this identifier: the buffer is live no more, and its
    /// identifier is not minted again. Nothing is recorded.
    pub fn allocation_rejected(&mut self, id: BufferId)
        ensures
            final(self)@ == old(self)@.forget(id),
            old(self)@.wf() ==> final(self)@.wf(),
    {
        self.entries.remove(&id.0);
    }

    /// The usage class of the pool's buffers.
    pub fn usage(&self) -> (kind: BufferKind)
        ensures
            kind == self@.kind,
    {
        self.usage
    }
}

} // verus!
