//! The memory manager: three pools behind one interface.
use vstd::prelude::*;
use crate::device::{BufferHandle, BufferKind, Command, DeviceReport, GpuContext};
use crate::pool::{BufferPool, MemoryError, Outcome, PoolModel};
use crate::view::BufferId;

verus! {

/// The commands of an upload of `data` through `staging` into `dest`:
/// create the staging buffer, write the bytes into it, copy them over on
/// the device, give the staging buffer up.
pub open spec fn upload_commands(staging: BufferHandle, dest: BufferHandle, data: Seq<u8>) -> Seq<
    Command,
> {
    seq![
        Command::CreateBuffer { buffer: staging },
        Command::WriteBuffer { buffer: staging, data },
        Command::CopyBuffer { src: staging, dst: dest, size: data.len() as u64 },
        Command::DestroyBuffer { buffer: staging },
    ]
}

/// The commands of a download of `src` through `staging`: create the
/// staging buffer, copy the whole of `src` into it on the device, read
/// it, give it up.
pub open spec fn download_commands(src: BufferHandle, staging: BufferHandle) -> Seq<Command> {
    seq![
        Command::CreateBuffer { buffer: staging },
        Command::CopyBuffer { src, dst: staging, size: src.size as u64 },
        Command::ReadBuffer { buffer: staging },
        Command::DestroyBuffer { buffer: staging },
    ]
}

/// The memory manager as a mathematical value: its three pools.
pub struct MemoryModel {
    pub main: PoolModel,
    pub upload: PoolModel,
    pub download: PoolModel,
}

impl MemoryModel {
    /// Each pool is well formed and of its own usage class.
    pub open spec fn wf(self) -> bool {
        &&& self.main.wf()
        &&& self.upload.wf()
        &&& self.download.wf()
        &&& self.main.kind == BufferKind::Main
        &&& self.upload.kind == BufferKind::Upload
        &&& self.download.kind == BufferKind::Download
    }

    /// The manager of three empty pools.
    pub open spec fn empty() -> MemoryModel {
        MemoryModel {
            main: PoolModel::empty(BufferKind::Main),
            upload: PoolModel::empty(BufferKind::Upload),
            download: PoolModel::empty(BufferKind::Download),
        }
    }

    /// The memory without the entry of a buffer that the device never
    /// made, in the pool of the buffer's class.
    pub open spec fn forget(self, buffer: BufferHandle) -> MemoryModel {
        match buffer.kind {
            BufferKind::Main => MemoryModel { main: self.main.forget(buffer.id), ..self },
            BufferKind::Upload => MemoryModel { upload: self.upload.forget(buffer.id), ..self },
            BufferKind::Download => MemoryModel {
                download: self.download.forget(buffer.id),
                ..self
            },
        }
    }

    /// What the memory makes of a report of the device: it forgets a
    /// buffer that was not allocated, and leaves a refused copy at that.
    /// The result is the error that the report stands for, if it is one
    /// of memory.
    pub open spec fn settle(self, report: DeviceReport) -> (MemoryModel, Option<MemoryError>) {
        match report {
            DeviceReport::AllocationRejected { buffer } => (
                self.forget(buffer),
                Some(MemoryError::AllocationFailed { buffer }),
            ),
            DeviceReport::CopyRejected { src, dst } => (
                self,
                Some(MemoryError::CopyFailed { src, dst }),
            ),
            DeviceReport::BuildFailed { kernel } => (self, None),
        }
    }

    /// The resident buffer with this identifier, where one is live.
    pub open spec fn get_ref(self, id: BufferId) -> Option<BufferHandle> {
        self.main.get(id)
    }

    /// Allocation in the resident pool.
    pub open spec fn allocate_raw(self, size: usize) -> Outcome<
        MemoryModel,
        Result<BufferId, MemoryError>,
    > {
        let o = self.main.create_buffer(size);
        Outcome {
            state: MemoryModel { main: o.state, upload: self.upload, download: self.download },
            commands: o.commands,
            result: match o.result {
                Ok(handle) => Ok(handle.id),
                Err(e) => Err(e),
            },
        }
    }

    /// Release in the resident pool.
    pub open spec fn release(self, id: BufferId) -> Outcome<MemoryModel, ()> {
        let o = self.main.release_buffer(id);
        Outcome {
            state: MemoryModel { main: o.state, upload: self.upload, download: self.download },
            commands: o.commands,
            result: (),
        }
    }

    /// Upload of `data` into the resident buffer `dest`. The staging
    /// buffer lives only within the upload: the upload pool ends with
    /// the buffers it began with.
    pub open spec fn write_to_buffer(self, dest: BufferId, data: Seq<u8>) -> Outcome<
        MemoryModel,
        Result<(), MemoryError>,
    > {
        match self.main.get(dest) {
            None => Outcome {
                state: self,
                commands: Seq::empty(),
                result: Err(MemoryError::MissingBuffer { id: dest }),
            },
            Some(target) => if data.len() > target.size {
                Outcome {
                    state: self,
                    commands: Seq::empty(),
                    result: Err(
                        MemoryError::OutOfBounds {
                            id: dest,
                            capacity: target.size,
                            requested: data.len() as usize,
                        },
                    ),
                }
            } else {
                match self.upload.create_buffer(data.len() as usize).result {
                    Err(e) => Outcome { state: self, commands: Seq::empty(), result: Err(e) },
                    Ok(staging) => Outcome {
                        state: MemoryModel {
                            main: self.main,
                            upload: self.upload.create_buffer(
                                data.len() as usize,
                            ).state.release_buffer(staging.id).state,
                            download: self.download,
                        },
                        commands: upload_commands(staging, target, data),
                        result: Ok(()),
                    },
                }
            },
        }
    }

    /// Download of the whole resident buffer `id`. The result is the
    /// number of bytes that the read yields. The staging buffer lives
    /// only within the download.
    pub open spec fn download_raw(self, id: BufferId) -> Outcome<
        MemoryModel,
        Result<usize, MemoryError>,
    > {
        match self.main.get(id) {
            None => Outcome {
                state: self,
                commands: Seq::empty(),
                result: Err(MemoryError::MissingBuffer { id }),
            },
            Some(source) => match self.download.create_buffer(source.size).result {
                Err(e) => Outcome { state: self, commands: Seq::empty(), result: Err(e) },
                Ok(staging) => Outcome {
                    state: MemoryModel {
                        main: self.main,
                        upload: self.upload,
                        download: self.download.create_buffer(source.size).state.release_buffer(
                            staging.id,
                        ).state,
                    },
                    commands: download_commands(source, staging),
                    result: Ok(source.size),
                },
            },
        }
    }
}

/// Presents the resident pool and the two staging pools as one memory,
/// and hides how bytes travel between host and device.
pub struct MemoryManager {
    main_pool: BufferPool,
    staging_upload: BufferPool,
    staging_download: BufferPool,
}

impl View for MemoryManager {
    type V = MemoryModel;

    closed spec fn view(&self) -> MemoryModel {
        MemoryModel {
            main: self.main_pool@,
            upload: self.staging_upload@,
            download: self.staging_download@,
        }
    }
}

impl MemoryManager {
    /// A manager of three empty pools.
    pub fn new() -> (manager: Self)
        ensures
            manager@ == MemoryModel::empty(),
            manager@.wf(),
    {
        MemoryManager {
            main_pool: BufferPool::new(BufferKind::Main),
            staging_upload: BufferPool::new(BufferKind::Upload),
            staging_download: BufferPool::new(BufferKind::Download),
        }
    }

    /// Allocates a resident buffer of `size_bytes`.
    pub fn allocate_raw(&mut self, ctx: &mut GpuContext, size_bytes: usize) -> (r: Result<
        BufferId,
        MemoryError,
    >)
        ensures
            final(self)@ == old(self)@.allocate_raw(size_bytes).state,
            final(ctx)@ == old(ctx)@ + old(self)@.allocate_raw(size_bytes).commands,
            r == old(self)@.allocate_raw(size_bytes).result,
            old(self)@.wf() ==> final(self)@.wf(),
    {
        match self.main_pool.create_buffer(ctx, size_bytes) {
            Ok(handle) => Ok(handle.id),
            Err(e) => Err(e),
        }
    }

    /// Releases a resident buffer. An identifier that names no live
    /// buffer changes nothing.
    pub fn release(&mut self, ctx: &mut GpuContext, id: BufferId)
        ensures
            final(self)@ == old(self)@.release(id).state,
            final(ctx)@ == old(ctx)@ + old(self)@.release(id).commands,
            old(self)@.wf() ==> final(self)@.wf(),
    {
        self.main_pool.release_buffer(ctx, id);
    }

    /// Uploads `data` into the start of the resident buffer `dest_id`,
    /// through a staging buffer that is created for the transfer and
    /// released before the call returns.
    ///
    /// Fails, and records nothing, where `dest_id` names no live
    /// resident buffer, where the buffer is smaller than `data`, or
    /// where the staging pool cannot allocate.
    pub fn write_to_buffer(&mut self, ctx: &mut GpuContext, dest_id: BufferId, data: &[u8]) -> (r:
        Result<(), MemoryError>)
        ensures
            final(self)@ == old(self)@.write_to_buffer(dest_id, data@).state,
            final(ctx)@ == old(ctx)@ + old(self)@.write_to_buffer(dest_id, data@).commands,
            r == old(self)@.write_to_buffer(dest_id, data@).result,
            old(self)@.wf() ==> final(self)@.wf(),
    {
        let target = match self.main_pool.get(dest_id) {
            Some(handle) => handle,
            None => {
                assert(ctx@ + Seq::<Command>::empty() == ctx@);
                return Err(MemoryError::MissingBuffer { id: dest_id });
            },
        };
        if data.len() > target.size {
            assert(ctx@ + Seq::<Command>::empty() == ctx@);
            return Err(
                MemoryError::OutOfBounds {
                    id: dest_id,
                    capacity: target.size,
                    requested: data.len(),
                },
            );
        }
        let staging = match self.staging_upload.create_buffer(ctx, data.len()) {
            Ok(handle) => handle,
            Err(e) => {
                return Err(e);
            },
        };
        ctx.write_buffer(staging, data);
        ctx.copy_buffer_to_buffer(staging, target, data.len() as u64);
        self.staging_upload.release_buffer(ctx, staging.id);
        assert(ctx@ == old(ctx)@ + upload_commands(staging, target, data@));
        Ok(())
    }

    /// Downloads the whole resident buffer `id`, through a staging buffer
    /// that is created for the transfer and released before the call
    /// returns. The bytes are what the recorded read hands to the
    /// backend; the result is how many there are.
    ///
    /// Fails, and records nothing, where `id` names no live resident
    /// buffer or where the staging pool cannot allocate.
    pub fn download_raw(&mut self, ctx: &mut GpuContext, id: BufferId) -> (r: Result<
        usize,
        MemoryError,
    >)
        ensures
            final(self)@ == old(self)@.download_raw(id).state,
            final(ctx)@ == old(ctx)@ + old(self)@.download_raw(id).commands,
            r == old(self)@.download_raw(id).result,
            old(self)@.wf() ==> final(self)@.wf(),
    {
        let source = match self.main_pool.get(id) {
            Some(handle) => handle,
            None => {
                assert(ctx@ + Seq::<Command>::empty() == ctx@);
                return Err(MemoryError::MissingBuffer { id });
            },
        };
        let staging = match self.staging_download.create_buffer(ctx, source.size) {
            Ok(handle) => handle,
            Err(e) => {
                return Err(e);
            },
        };
        ctx.copy_buffer_to_buffer(source, staging, source.size as u64);
        ctx.read_buffer(staging);
        self.staging_download.release_buffer(ctx, staging.id);
        assert(ctx@ == old(ctx)@ + download_commands(source, staging));
        Ok(source.size)
    }

    /// Takes note that the device rejected the allocation of `buffer`:
    /// the pool of its class forgets it, so that it is found no more.
    /// The result is the error to hand to whoever asked for the buffer.
    pub fn allocation_rejected(&mut self, buffer: BufferHandle) -> (error: MemoryError)
        ensures
            final(self)@ == old(self)@.forget(buffer),
            error == (MemoryError::AllocationFailed { buffer }),
            old(self)@.wf() ==> final(self)@.wf(),
    {
        match buffer.kind {
            BufferKind::Main => self.main_pool.allocation_rejected(buffer.id),
            BufferKind::Upload => self.staging_upload.allocation_rejected(buffer.id),
            BufferKind::Download => self.staging_download.allocation_rejected(buffer.id),
        }
        MemoryError::AllocationFailed { buffer }
    }

    /// Takes note of what the device reports of a command that it did
    /// not perform: a buffer that it did not allocate is forgotten, a
    /// copy that it refused changes nothing. The result is the error
    /// that the report stands for; a report that is not about memory
    /// gives none.
    pub fn device_reported(&mut self, report: DeviceReport) -> (error: Option<MemoryError>)
        ensures
            final(self)@ == old(self)@.settle(report).0,
            error == old(self)@.settle(report).1,
            old(self)@.wf() ==> final(self)@.wf(),
    {
        match report {
            DeviceReport::AllocationRejected { buffer } => Some(self.allocation_rejected(buffer)),
            DeviceReport::CopyRejected { src, dst } => Some(MemoryError::CopyFailed { src, dst }),
            DeviceReport::BuildFailed { kernel } => None,
        }
    }

    /// The resident buffer with this identifier; nothing for an
    /// identifier that was never allocated or was released.
    pub fn get_ref(&self, id: BufferId) -> (handle: Option<BufferHandle>)
        ensures
            handle == self@.get_ref(id),
    {
        self.main_pool.get(id)
    }
}

/// The lifecycle of a buffer. An allocation that succeeds mints an
/// identifier that named no live buffer before. From then on the buffer
/// is found under it, with the size asked for, and once it is released
/// it is found no more.
pub proof fn lemma_buffer_lifecycle(memory: MemoryModel, size: usize)
    requires
        memory.wf(),
    ensures
        ({
            let allocated = memory.allocate_raw(size);
            allocated.result matches Ok(id) ==> {
                &&& memory.get_ref(id) is None
                &&& allocated.state.get_ref(id) == Some(
                    BufferHandle { kind: BufferKind::Main, id, size },
                )
                &&& allocated.state.release(id).state.get_ref(id) is None
            }
        }),
{
}

/// A live buffer stays live, with its size, through whatever the
/// manager does, but for its own release.
pub proof fn lemma_live_until_released(
    memory: MemoryModel,
    id: BufferId,
    size: usize,
    other: BufferId,
    data: Seq<u8>,
)
    requires
        memory.wf(),
        memory.get_ref(id) is Some,
    ensures
        memory.allocate_raw(size).state.get_ref(id) == memory.get_ref(id),
        other != id ==> memory.release(other).state.get_ref(id) == memory.get_ref(id),
        memory.write_to_buffer(other, data).state.get_ref(id) == memory.get_ref(id),
        memory.download_raw(other).state.get_ref(id) == memory.get_ref(id),
{
}

/// An identifier that was minted once is never minted again: whatever
/// the manager does keeps it minted, and no later allocation gives it
/// out. So a released buffer stays gone.
pub proof fn lemma_identifiers_not_reused(
    memory: MemoryModel,
    id: BufferId,
    size: usize,
    other: BufferId,
    data: Seq<u8>,
)
    requires
        memory.wf(),
        id.0 < memory.main.next_id,
    ensures
        memory.allocate_raw(size).result != Ok::<BufferId, MemoryError>(id),
        id.0 < memory.allocate_raw(size).state.main.next_id,
        id.0 < memory.release(other).state.main.next_id,
        id.0 < memory.write_to_buffer(other, data).state.main.next_id,
        id.0 < memory.download_raw(other).state.main.next_id,
        memory.get_ref(id) is None ==> {
            &&& memory.allocate_raw(size).state.get_ref(id) is None
            &&& memory.release(other).state.get_ref(id) is None
            &&& memory.write_to_buffer(other, data).state.get_ref(id) is None
            &&& memory.download_raw(other).state.get_ref(id) is None
        },
{
}

/// No staging buffer outlives a transfer: an upload and a download leave
/// both staging pools with the buffers they had, and the resident pool
/// as it was.
pub proof fn lemma_staging_is_transient(memory: MemoryModel, id: BufferId, data: Seq<u8>)
    requires
        memory.wf(),
    ensures
        memory.write_to_buffer(id, data).state.main == memory.main,
        memory.write_to_buffer(id, data).state.upload.sizes == memory.upload.sizes,
        memory.write_to_buffer(id, data).state.download == memory.download,
        memory.download_raw(id).state.main == memory.main,
        memory.download_raw(id).state.upload == memory.upload,
        memory.download_raw(id).state.download.sizes == memory.download.sizes,
{
    let written = memory.write_to_buffer(id, data);
    assert(written.state.upload.sizes =~= memory.upload.sizes);
    let read = memory.download_raw(id);
    assert(read.state.download.sizes =~= memory.download.sizes);
}

} // verus!
