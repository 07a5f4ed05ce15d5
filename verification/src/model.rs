//! A model of the device, and what the library's commands do to it.
//!
//! The device is outside the library. What the library assumes of it is
//! written down here as a state and a step function: buffers hold bytes,
//! a write replaces them, a copy moves a prefix, a read hands them out,
//! a dispatch may change whatever it may write. Against this model the
//! command sequences of the memory manager are shown to be in order and
//! to move the bytes they are meant to move.
use vstd::prelude::*;
use crate::device::{
    BindGroupEntry, BufferHandle, BufferKind, Command, DeviceReport, KernelId, LayoutEntry,
};
use crate::memory::{download_commands, upload_commands, MemoryModel};
use crate::pool::{MemoryError, PoolModel};
use crate::bytes::{image_of, lemma_elements_round_trip, words_in, words_of};
use crate::dtype::Element;
use crate::view::BufferId;

verus! {

/// What names a buffer on the device: the pool and the identifier.
pub open spec fn buffer_key(buffer: BufferHandle) -> (BufferKind, BufferId) {
    (buffer.kind, buffer.id)
}

/// The device as far as the library's commands can tell: the bytes of
/// each live buffer, the binding layout of each built kernel, and what
/// the blocking reads have handed back so far, oldest first.
///
/// What a command leaves undetermined (the bytes of a new buffer, the
/// bytes that a kernel writes) the device takes from `noise`, which may
/// be any function of the number of commands performed so far and of
/// the buffer. A law that holds of every device thus holds whatever
/// those bytes are.
pub struct DeviceState {
    pub buffers: Map<(BufferKind, BufferId), Seq<u8>>,
    pub kernels: Map<KernelId, Seq<LayoutEntry>>,
    pub reads: Seq<Seq<u8>>,
    pub age: nat,
    pub noise: spec_fn(nat, (BufferKind, BufferId)) -> Seq<u8>,
}

/// `bytes` cut or filled up to a length.
pub open spec fn fit(bytes: Seq<u8>, len: nat) -> Seq<u8> {
    Seq::new(
        len,
        |i: int|
            if i < bytes.len() {
                bytes[i]
            } else {
                0u8
            },
    )
}

impl DeviceState {
    /// A device before anything was asked of it: no buffer, no kernel,
    /// nothing read.
    pub open spec fn fresh(noise: spec_fn(nat, (BufferKind, BufferId)) -> Seq<u8>) -> DeviceState {
        DeviceState {
            buffers: Map::empty(),
            kernels: Map::empty(),
            reads: Seq::empty(),
            age: 0,
            noise,
        }
    }

    /// The bytes that the device puts, at this moment, into `len` bytes
    /// of the buffer under `key` that no command determines.
    pub open spec fn undetermined(self, key: (BufferKind, BufferId), len: nat) -> Seq<u8> {
        fit((self.noise)(self.age, key), len)
    }

    /// The device where it did not perform what the report names: the
    /// buffer was not made, the kernel was not built.
    pub open spec fn without(self, report: DeviceReport) -> DeviceState {
        match report {
            DeviceReport::AllocationRejected { buffer } => DeviceState {
                buffers: self.buffers.remove(buffer_key(buffer)),
                ..self
            },
            DeviceReport::CopyRejected { src, dst } => self,
            DeviceReport::BuildFailed { kernel } => DeviceState {
                kernels: self.kernels.remove(kernel),
                ..self
            },
        }
    }

    /// The buffer is live and has the size that the handle says.
    pub open spec fn live(self, buffer: BufferHandle) -> bool {
        &&& self.buffers.contains_key(buffer_key(buffer))
        &&& self.buffers[buffer_key(buffer)].len() == buffer.size
    }

    /// The bytes of a buffer.
    pub open spec fn contents(self, buffer: BufferHandle) -> Seq<u8> {
        self.buffers[buffer_key(buffer)]
    }

    /// Binding `i` of a dispatch may be written by the kernel.
    pub open spec fn writes_binding(self, kernel: KernelId, i: int) -> bool {
        0 <= i < self.kernels[kernel].len() && !self.kernels[kernel][i].read_only
    }

    /// The buffer under `key` is bound where the kernel may write.
    pub open spec fn written_by(
        self,
        kernel: KernelId,
        bindings: Seq<BindGroupEntry>,
        key: (BufferKind, BufferId),
    ) -> bool {
        exists|i: int|
            0 <= i < bindings.len() && buffer_key(#[trigger] bindings[i].buffer) == key
                && self.writes_binding(kernel, i)
    }

    /// The device can perform the command: the buffers it names are live
    /// and of the stated size, each is used as its class allows, nothing
    /// is read or written out of bounds, a new name is new, and a
    /// dispatch binds as many buffers as the kernel's layout has slots.
    pub open spec fn accepts(self, command: Command) -> bool {
        match command {
            Command::CreateBuffer { buffer } => !self.buffers.contains_key(buffer_key(buffer)),
            Command::WriteBuffer { buffer, data } => {
                &&& self.live(buffer)
                &&& buffer.kind.spec_usage().map_write
                &&& data.len() == buffer.size
            },
            Command::ReadBuffer { buffer } => {
                &&& self.live(buffer)
                &&& buffer.kind.spec_usage().map_read
            },
            Command::CopyBuffer { src, dst, size } => {
                &&& self.live(src)
                &&& self.live(dst)
                &&& buffer_key(src) != buffer_key(dst)
                &&& src.kind.spec_usage().copy_src
                &&& dst.kind.spec_usage().copy_dst
                &&& size <= src.size
                &&& size <= dst.size
            },
            Command::DestroyBuffer { buffer } => self.live(buffer),
            Command::CreatePipeline { kernel, source, entry, layout } => {
                &&& !self.kernels.contains_key(kernel)
                &&& forall|i: int| 0 <= i < layout.len() ==> (#[trigger] layout[i]).binding == i
            },
            Command::Dispatch { kernel, bindings, groups } => {
                &&& self.kernels.contains_key(kernel)
                &&& bindings.len() == self.kernels[kernel].len()
                &&& forall|i: int|
                    0 <= i < bindings.len() ==> {
                        &&& (#[trigger] bindings[i]).binding == i
                        &&& self.live(bindings[i].buffer)
                        &&& bindings[i].buffer.kind.spec_usage().storage
                    }
            },
        }
    }

    /// The device after it has performed the command. A new buffer holds
    /// undetermined bytes; so does, after a dispatch, every buffer that
    /// the kernel may write.
    pub open spec fn apply(self, command: Command) -> DeviceState {
        match command {
            Command::CreateBuffer { buffer } => DeviceState {
                buffers: self.buffers.insert(
                    buffer_key(buffer),
                    self.undetermined(buffer_key(buffer), buffer.size as nat),
                ),
                age: self.age + 1,
                ..self
            },
            Command::WriteBuffer { buffer, data } => DeviceState {
                buffers: self.buffers.insert(buffer_key(buffer), data),
                age: self.age + 1,
                ..self
            },
            Command::ReadBuffer { buffer } => DeviceState {
                reads: self.reads.push(self.contents(buffer)),
                age: self.age + 1,
                ..self
            },
            Command::CopyBuffer { src, dst, size } => DeviceState {
                buffers: self.buffers.insert(
                    buffer_key(dst),
                    self.contents(src).take(size as int) + self.contents(dst).skip(size as int),
                ),
                age: self.age + 1,
                ..self
            },
            Command::DestroyBuffer { buffer } => DeviceState {
                buffers: self.buffers.remove(buffer_key(buffer)),
                age: self.age + 1,
                ..self
            },
            Command::CreatePipeline { kernel, source, entry, layout } => DeviceState {
                kernels: self.kernels.insert(kernel, layout),
                age: self.age + 1,
                ..self
            },
            Command::Dispatch { kernel, bindings, groups } => DeviceState {
                buffers: Map::new(
                    |key: (BufferKind, BufferId)| self.buffers.contains_key(key),
                    |key: (BufferKind, BufferId)|
                        if self.written_by(kernel, bindings, key) {
                            self.undetermined(key, self.buffers[key].len())
                        } else {
                            self.buffers[key]
                        },
                ),
                age: self.age + 1,
                ..self
            },
        }
    }

    /// The device after a sequence of commands, performed in order.
    pub open spec fn run(self, commands: Seq<Command>) -> DeviceState
        decreases commands.len(),
    {
        if commands.len() == 0 {
            self
        } else {
            self.run(commands.drop_last()).apply(commands.last())
        }
    }

    /// The device can perform every command of the sequence when its
    /// turn comes.
    pub open spec fn accepts_all(self, commands: Seq<Command>) -> bool
        decreases commands.len(),
    {
        if commands.len() == 0 {
            true
        } else {
            &&& self.accepts_all(commands.drop_last())
            &&& self.run(commands.drop_last()).accepts(commands.last())
        }
    }
}

/// The pool of a usage class.
pub open spec fn pool_of(memory: MemoryModel, kind: BufferKind) -> PoolModel {
    match kind {
        BufferKind::Main => memory.main,
        BufferKind::Upload => memory.upload,
        BufferKind::Download => memory.download,
    }
}

/// The device holds exactly the buffers that the pools hold, each with
/// the size that its pool has on record.
pub open spec fn mirrors(memory: MemoryModel, device: DeviceState) -> bool {
    forall|kind: BufferKind, id: BufferId|
        #![trigger device.buffers.contains_key((kind, id))]
        {
            &&& device.buffers.contains_key((kind, id)) <==> pool_of(memory, kind).contains(id)
            &&& pool_of(memory, kind).contains(id) ==> device.buffers[(kind, id)].len() == pool_of(
                memory,
                kind,
            ).sizes[id.0]
        }
}

/// Running one sequence after another is running their concatenation.
pub proof fn lemma_run_concat(device: DeviceState, first: Seq<Command>, second: Seq<Command>)
    ensures
        device.run(first + second) == device.run(first).run(second),
        device.accepts_all(first + second) <==> device.accepts_all(first) && device.run(
            first,
        ).accepts_all(second),
    decreases second.len(),
{
    if second.len() == 0 {
        assert(first + second =~= first);
    } else {
        assert((first + second).drop_last() =~= first + second.drop_last());
        assert((first + second).last() == second.last());
        lemma_run_concat(device, first, second.drop_last());
    }
}

/// Running a single command is applying it.
pub proof fn lemma_run_one(device: DeviceState, command: Command)
    ensures
        device.run(seq![command]) == device.apply(command),
        device.accepts_all(seq![command]) <==> device.accepts(command),
{
    let commands = seq![command];
    assert(commands.drop_last() =~= Seq::<Command>::empty());
    assert(commands.last() == command);
    assert(device.run(commands.drop_last()) == device);
    assert(device.accepts_all(commands.drop_last()));
}

/// Running four commands is applying them one after the other.
pub proof fn lemma_run_four(device: DeviceState, a: Command, b: Command, c: Command, d: Command)
    ensures
        device.run(seq![a, b, c, d]) == device.apply(a).apply(b).apply(c).apply(d),
        device.accepts_all(seq![a, b, c, d]) <==> {
            &&& device.accepts(a)
            &&& device.apply(a).accepts(b)
            &&& device.apply(a).apply(b).accepts(c)
            &&& device.apply(a).apply(b).apply(c).accepts(d)
        },
{
    lemma_run_one(device, a);
    lemma_run_one(device.apply(a), b);
    lemma_run_one(device.apply(a).apply(b), c);
    lemma_run_one(device.apply(a).apply(b).apply(c), d);
    lemma_run_concat(device, seq![a], seq![b]);
    lemma_run_concat(device, seq![a, b], seq![c]);
    lemma_run_concat(device, seq![a, b, c], seq![d]);
    assert(seq![a] + seq![b] =~= seq![a, b]);
    assert(seq![a, b] + seq![c] =~= seq![a, b, c]);
    assert(seq![a, b, c] + seq![d] =~= seq![a, b, c, d]);
}

/// Every buffer that is live before and after holds the same bytes,
/// and nothing was read.
pub open spec fn undisturbed(before: DeviceState, after: DeviceState) -> bool {
    &&& after.reads == before.reads
    &&& after.kernels == before.kernels
    &&& forall|key: (BufferKind, BufferId)|
        before.buffers.contains_key(key) && #[trigger] after.buffers.contains_key(key)
            ==> after.buffers[key] == before.buffers[key]
}

/// An allocation is in order on a device that mirrors the memory; the
/// device mirrors the memory after it, and no other buffer is touched.
pub proof fn lemma_allocate_in_order(memory: MemoryModel, device: DeviceState, size: usize)
    requires
        memory.wf(),
        mirrors(memory, device),
    ensures
        ({
            let o = memory.allocate_raw(size);
            &&& o.state.wf()
            &&& device.accepts_all(o.commands)
            &&& mirrors(o.state, device.run(o.commands))
            &&& undisturbed(device, device.run(o.commands))
        }),
{
    let o = memory.allocate_raw(size);
    if memory.main.next_id < u64::MAX {
        let handle = memory.main.next_handle(size);
        let create = Command::CreateBuffer { buffer: handle };
        assert(o.commands =~= seq![create]);
        lemma_run_one(device, create);
        assert(!device.buffers.contains_key((BufferKind::Main, BufferId(memory.main.next_id))));
        let after = device.run(o.commands);
        assert forall|kind: BufferKind, id: BufferId|
            #![trigger after.buffers.contains_key((kind, id))]
            {
                &&& after.buffers.contains_key((kind, id)) <==> pool_of(o.state, kind).contains(id)
                &&& pool_of(o.state, kind).contains(id) ==> after.buffers[(kind, id)].len()
                    == pool_of(o.state, kind).sizes[id.0]
            } by {
            assert(device.buffers.contains_key((kind, id)) <==> pool_of(memory, kind).contains(id));
        }
    } else {
        assert(o.commands =~= Seq::<Command>::empty());
    }
}

/// A release is in order on a device that mirrors the memory; the
/// device mirrors the memory after it, and no other buffer is touched.
pub proof fn lemma_release_in_order(memory: MemoryModel, device: DeviceState, id: BufferId)
    requires
        memory.wf(),
        mirrors(memory, device),
    ensures
        ({
            let o = memory.release(id);
            &&& o.state.wf()
            &&& device.accepts_all(o.commands)
            &&& mirrors(o.state, device.run(o.commands))
            &&& undisturbed(device, device.run(o.commands))
        }),
{
    let o = memory.release(id);
    if memory.main.contains(id) {
        let destroy = Command::DestroyBuffer { buffer: memory.main.handle(id) };
        assert(o.commands =~= seq![destroy]);
        lemma_run_one(device, destroy);
        assert(device.buffers.contains_key((BufferKind::Main, id)));
        let after = device.run(o.commands);
        assert forall|kind: BufferKind, other: BufferId|
            #![trigger after.buffers.contains_key((kind, other))]
            {
                &&& after.buffers.contains_key((kind, other)) <==> pool_of(o.state, kind).contains(
                    other,
                )
                &&& pool_of(o.state, kind).contains(other) ==> after.buffers[(kind, other)].len()
                    == pool_of(o.state, kind).sizes[other.0]
            } by {
            assert(device.buffers.contains_key((kind, other)) <==> pool_of(memory, kind).contains(
                other,
            ));
        }
    } else {
        assert(o.commands =~= Seq::<Command>::empty());
    }
}

/// An upload is in order on a device that mirrors the memory, and the
/// device mirrors the memory after it. Where it succeeds, the
/// destination begins with the uploaded bytes and keeps what lay behind
/// them; every other buffer holds what it held, and no staging buffer is
/// left.
#[verifier::rlimit(40)]
pub proof fn lemma_upload_in_order(
    memory: MemoryModel,
    device: DeviceState,
    dest: BufferId,
    data: Seq<u8>,
)
    requires
        memory.wf(),
        mirrors(memory, device),
    ensures
        ({
            let o = memory.write_to_buffer(dest, data);
            let after = device.run(o.commands);
            &&& o.state.wf()
            &&& device.accepts_all(o.commands)
            &&& mirrors(o.state, after)
            &&& after.reads == device.reads
            &&& after.kernels == device.kernels
            &&& o.result is Ok ==> {
                &&& after.buffers[(BufferKind::Main, dest)] == data + device.buffers[(
                    BufferKind::Main,
                    dest,
                )].skip(data.len() as int)
                &&& forall|key: (BufferKind, BufferId)|
                    #[trigger] after.buffers.contains_key(key) && key != (BufferKind::Main, dest)
                        ==> after.buffers[key] == device.buffers[key]
            }
            &&& o.result is Err ==> after == device
        }),
{
    let o = memory.write_to_buffer(dest, data);
    if o.result is Err {
        assert(o.commands =~= Seq::<Command>::empty());
    } else {
        let target = memory.main.handle(dest);
        let staging = memory.upload.next_handle(data.len() as usize);
        let create = Command::CreateBuffer { buffer: staging };
        let write = Command::WriteBuffer { buffer: staging, data };
        let copy = Command::CopyBuffer { src: staging, dst: target, size: data.len() as u64 };
        let destroy = Command::DestroyBuffer { buffer: staging };
        assert(o.commands =~= seq![create, write, copy, destroy]);
        lemma_run_four(device, create, write, copy, destroy);
        let staging_key = (BufferKind::Upload, BufferId(memory.upload.next_id));
        let dest_key = (BufferKind::Main, dest);
        assert(!device.buffers.contains_key(staging_key));
        assert(device.buffers.contains_key(dest_key));
        let d1 = device.apply(create);
        let d2 = d1.apply(write);
        let d3 = d2.apply(copy);
        let after = d3.apply(destroy);
        assert(d2.contents(staging) == data);
        assert(d2.contents(target) == device.buffers[dest_key]);
        assert(data.take(data.len() as int) =~= data);
        assert(after.buffers[dest_key] == data + device.buffers[dest_key].skip(
            data.len() as int,
        ));
        assert(after.buffers[dest_key].len() == target.size);
        assert forall|key: (BufferKind, BufferId)|
            #[trigger] after.buffers.contains_key(key) && key != dest_key implies after.buffers[key]
            == device.buffers[key] by {
            assert(key != staging_key);
        }
        assert(after.reads == device.reads);
        assert(after.kernels == device.kernels);
        let ran = device.run(o.commands);
        assert(ran == after);
        assert(device.accepts_all(o.commands));
        assert(mirrors(o.state, ran));
        assert(o.state.wf());
        assert(ran.buffers[(BufferKind::Main, dest)] == data + device.buffers[(
            BufferKind::Main,
            dest,
        )].skip(data.len() as int));
        assert forall|kind: BufferKind, id: BufferId|
            #![trigger after.buffers.contains_key((kind, id))]
            {
                &&& after.buffers.contains_key((kind, id)) <==> pool_of(o.state, kind).contains(id)
                &&& pool_of(o.state, kind).contains(id) ==> after.buffers[(kind, id)].len()
                    == pool_of(o.state, kind).sizes[id.0]
            } by {
            assert(device.buffers.contains_key((kind, id)) <==> pool_of(memory, kind).contains(id));
        }
    }
}

/// A download is in order on a device that mirrors the memory, and the
/// device mirrors the memory after it. Where it succeeds, the one read
/// it makes hands back the bytes of the buffer; every buffer holds what
/// it held, and no staging buffer is left.
pub proof fn lemma_download_in_order(memory: MemoryModel, device: DeviceState, id: BufferId)
    requires
        memory.wf(),
        mirrors(memory, device),
    ensures
        ({
            let o = memory.download_raw(id);
            let after = device.run(o.commands);
            &&& o.state.wf()
            &&& device.accepts_all(o.commands)
            &&& mirrors(o.state, after)
            &&& after.buffers == device.buffers
            &&& after.kernels == device.kernels
            &&& o.result is Ok ==> after.reads == device.reads.push(
                device.buffers[(BufferKind::Main, id)],
            )
            &&& o.result is Err ==> after == device
        }),
{
    let o = memory.download_raw(id);
    if o.result is Err {
        assert(o.commands =~= Seq::<Command>::empty());
    } else {
        let source = memory.main.handle(id);
        let staging = memory.download.next_handle(source.size);
        let create = Command::CreateBuffer { buffer: staging };
        let copy = Command::CopyBuffer { src: source, dst: staging, size: source.size as u64 };
        let read = Command::ReadBuffer { buffer: staging };
        let destroy = Command::DestroyBuffer { buffer: staging };
        assert(o.commands =~= seq![create, copy, read, destroy]);
        lemma_run_four(device, create, copy, read, destroy);
        let staging_key = (BufferKind::Download, BufferId(memory.download.next_id));
        let source_key = (BufferKind::Main, id);
        assert(!device.buffers.contains_key(staging_key));
        assert(device.buffers.contains_key(source_key));
        let bytes = device.buffers[source_key];
        let d1 = device.apply(create);
        let d2 = d1.apply(copy);
        let d3 = d2.apply(read);
        let after = d3.apply(destroy);
        assert(d1.contents(source) == bytes);
        assert(bytes.take(source.size as int) =~= bytes);
        assert(d1.contents(staging).skip(source.size as int) =~= Seq::<u8>::empty());
        assert(d2.contents(staging) =~= bytes);
        assert(after.buffers =~= device.buffers);
        assert forall|kind: BufferKind, other: BufferId|
            #![trigger after.buffers.contains_key((kind, other))]
            {
                &&& after.buffers.contains_key((kind, other)) <==> pool_of(o.state, kind).contains(
                    other,
                )
                &&& pool_of(o.state, kind).contains(other) ==> after.buffers[(kind, other)].len()
                    == pool_of(o.state, kind).sizes[other.0]
            } by {
            assert(device.buffers.contains_key((kind, other)) <==> pool_of(memory, kind).contains(
                other,
            ));
        }
    }
}

/// Every pool has an identifier left to mint.
pub open spec fn has_identifiers(memory: MemoryModel) -> bool {
    &&& memory.main.next_id < u64::MAX
    &&& memory.upload.next_id < u64::MAX
    &&& memory.download.next_id < u64::MAX
}

/// Round trip on bytes: allocate a buffer for a payload, upload the
/// payload, download the buffer. While the pools have identifiers left,
/// the three steps succeed, their commands are in order on any device
/// that mirrors the memory, the download reports the length of the
/// payload, and its read hands back the payload, byte for byte.
pub proof fn lemma_round_trip(memory: MemoryModel, device: DeviceState, data: Seq<u8>)
    requires
        memory.wf(),
        mirrors(memory, device),
        has_identifiers(memory),
        data.len() <= usize::MAX,
    ensures
        ({
            let allocated = memory.allocate_raw(data.len() as usize);
            let id = allocated.result->Ok_0;
            let written = allocated.state.write_to_buffer(id, data);
            let read = written.state.download_raw(id);
            let commands = allocated.commands + written.commands + read.commands;
            &&& allocated.result is Ok
            &&& written.result is Ok
            &&& read.result == Ok::<usize, MemoryError>(data.len() as usize)
            &&& device.accepts_all(commands)
            &&& device.run(commands).reads == device.reads.push(data)
        }),
{
    let allocated = memory.allocate_raw(data.len() as usize);
    lemma_allocate_in_order(memory, device, data.len() as usize);
    let id = allocated.result->Ok_0;
    let d1 = device.run(allocated.commands);
    let written = allocated.state.write_to_buffer(id, data);
    lemma_upload_in_order(allocated.state, d1, id, data);
    let d2 = d1.run(written.commands);
    let read = written.state.download_raw(id);
    lemma_download_in_order(written.state, d2, id);
    lemma_run_concat(device, allocated.commands, written.commands);
    lemma_run_concat(device, allocated.commands + written.commands, read.commands);
    assert(d1.buffers[(BufferKind::Main, id)].len() == data.len());
    assert(d1.buffers[(BufferKind::Main, id)].skip(data.len() as int) =~= Seq::<u8>::empty());
    assert(d2.buffers[(BufferKind::Main, id)] =~= data);
}

/// Round trip on elements, for each element type: allocate a buffer for
/// a run of elements, upload their image, download the buffer. While
/// the pools have identifiers left, the read hands back the image, and
/// whatever elements are read from it in the same byte order are the
/// elements that went in, bit for bit and in order.
pub proof fn lemma_round_trip_of_elements<T: Element>(
    memory: MemoryModel,
    device: DeviceState,
    data: Seq<T>,
    back: Seq<T>,
    little_endian: bool,
)
    requires
        memory.wf(),
        mirrors(memory, device),
        has_identifiers(memory),
        4 * data.len() <= usize::MAX,
        words_of(back) == words_in(image_of(words_of(data), little_endian), little_endian),
    ensures
        ({
            let image = image_of(words_of(data), little_endian);
            let allocated = memory.allocate_raw(image.len() as usize);
            let id = allocated.result->Ok_0;
            let written = allocated.state.write_to_buffer(id, image);
            let read = written.state.download_raw(id);
            let commands = allocated.commands + written.commands + read.commands;
            &&& allocated.result is Ok
            &&& written.result is Ok
            &&& read.result == Ok::<usize, MemoryError>((4 * data.len()) as usize)
            &&& device.accepts_all(commands)
            &&& device.run(commands).reads == device.reads.push(image)
            &&& back == data
        }),
{
    lemma_round_trip(memory, device, image_of(words_of(data), little_endian));
    lemma_elements_round_trip(data, back, little_endian);
}

} // verus!
