//! The device as the library sees it: a queue of commands.
//!
//! The library never touches a device. It records, in order, what a
//! backend has to do: create and destroy buffers, move bytes, build
//! pipelines, dispatch kernels. The backend drains the queue and
//! performs each command with the values that the command carries.
use vstd::prelude::*;
use crate::view::BufferId;

verus! {

/// The usage class of a buffer, which is that of the pool that owns it.
#[derive(Clone, Copy, Debug, PartialEq, Eq, Hash, Structural)]
pub enum BufferKind {
    /// Resident storage that holds tensor data.
    Main,
    /// Staging for transfers from host to device.
    Upload,
    /// Staging for transfers from device to host.
    Download,
}

/// What a buffer may be used for on the device.
#[derive(Clone, Copy, Debug, PartialEq, Eq, Structural)]
pub struct BufferUsage {
    pub storage: bool,
    pub copy_src: bool,
    pub copy_dst: bool,
    pub map_read: bool,
    pub map_write: bool,
}

impl BufferKind {
    /// The uses of a buffer of this class.
    pub open spec fn spec_usage(self) -> BufferUsage {
        match self {
            BufferKind::Main => BufferUsage {
                storage: true,
                copy_src: true,
                copy_dst: true,
                map_read: false,
                map_write: false,
            },
            BufferKind::Upload => BufferUsage {
                storage: false,
                copy_src: true,
                copy_dst: false,
                map_read: false,
                map_write: true,
            },
            BufferKind::Download => BufferUsage {
                storage: false,
                copy_src: false,
                copy_dst: true,
                map_read: true,
                map_write: false,
            },
        }
    }

    /// The uses of a buffer of this class: resident buffers are storage
    /// that can be copied from and to; upload staging is written by the
    /// host and copied from; download staging is copied to and read by
    /// the host.
    #[verifier::when_used_as_spec(spec_usage)]
    pub fn usage(self) -> (u: BufferUsage)
        ensures
            u == self.spec_usage(),
    {
        match self {
            BufferKind::Main => BufferUsage {
                storage: true,
                copy_src: true,
                copy_dst: true,
                map_read: false,
                map_write: false,
            },
            BufferKind::Upload => BufferUsage {
                storage: false,
                copy_src: true,
                copy_dst: false,
                map_read: false,
                map_write: true,
            },
            BufferKind::Download => BufferUsage {
                storage: false,
                copy_src: false,
                copy_dst: true,
                map_read: true,
                map_write: false,
            },
        }
    }
}

/// A reference to a live buffer of a pool: its class, its identifier and
/// its size in bytes. It owns nothing.
#[derive(Clone, Copy, Debug, PartialEq, Eq, Hash, Structural)]
pub struct BufferHandle {
    pub kind: BufferKind,
    pub id: BufferId,
    pub size: usize,
}

/// Names a compiled pipeline together with its binding layout.
#[derive(Clone, Copy, Debug, PartialEq, Eq, Hash, Structural)]
pub struct KernelId(pub u64);

/// One slot of a binding layout: a storage buffer that the kernel only
/// reads, or one that it reads and writes.
#[derive(Clone, Copy, Debug, PartialEq, Eq, Structural)]
pub struct LayoutEntry {
    pub binding: u32,
    pub read_only: bool,
}

/// One bound buffer of a dispatch.
#[derive(Clone, Copy, Debug, PartialEq, Eq, Structural)]
pub struct BindGroupEntry {
    pub binding: u32,
    pub buffer: BufferHandle,
}

/// What the backend reports of a command that the device did not
/// perform.
#[derive(Clone, Copy, Debug, PartialEq, Eq, Structural)]
#[allow(inconsistent_fields)]
pub enum DeviceReport {
    /// The device did not allocate the buffer.
    AllocationRejected { buffer: BufferHandle },
    /// The device did not copy from `src` to `dst`.
    CopyRejected { src: BufferHandle, dst: BufferHandle },
    /// The device could not compile the shader or build the pipeline.
    BuildFailed { kernel: KernelId },
}

/// One thing for the backend to do.
#[derive(Debug)]
#[allow(inconsistent_fields)]
pub enum DeviceCommand {
    /// Allocate an uninitialised buffer of the handle's size and class.
    CreateBuffer { buffer: BufferHandle },
    /// Map the buffer for writing, wait, copy `data` in, unmap.
    WriteBuffer { buffer: BufferHandle, data: Vec<u8> },
    /// Map the buffer for reading, wait, hand its bytes to the caller,
    /// unmap.
    ReadBuffer { buffer: BufferHandle },
    /// Copy the first `size` bytes of `src` over the first `size` bytes
    /// of `dst`, on the device.
    CopyBuffer { src: BufferHandle, dst: BufferHandle, size: u64 },
    /// Give the buffer up.
    DestroyBuffer { buffer: BufferHandle },
    /// Compile `source` and build the pipeline for `entry` against the
    /// layout.
    CreatePipeline { kernel: KernelId, source: String, entry: String, layout: Vec<LayoutEntry> },
    /// Run the kernel over `groups` work groups with the buffers bound.
    Dispatch { kernel: KernelId, bindings: Vec<BindGroupEntry>, groups: (u32, u32, u32) },
}

/// A `DeviceCommand` as mathematical values.
#[allow(inconsistent_fields)]
pub enum Command {
    CreateBuffer { buffer: BufferHandle },
    WriteBuffer { buffer: BufferHandle, data: Seq<u8> },
    ReadBuffer { buffer: BufferHandle },
    CopyBuffer { src: BufferHandle, dst: BufferHandle, size: u64 },
    DestroyBuffer { buffer: BufferHandle },
    CreatePipeline {
        kernel: KernelId,
        source: Seq<char>,
        entry: Seq<char>,
        layout: Seq<LayoutEntry>,
    },
    Dispatch { kernel: KernelId, bindings: Seq<BindGroupEntry>, groups: (u32, u32, u32) },
}

impl View for DeviceCommand {
    type V = Command;

    open spec fn view(&self) -> Command {
        match self {
            DeviceCommand::CreateBuffer { buffer } => Command::CreateBuffer { buffer: *buffer },
            DeviceCommand::WriteBuffer { buffer, data } => Command::WriteBuffer {
                buffer: *buffer,
                data: data@,
            },
            DeviceCommand::ReadBuffer { buffer } => Command::ReadBuffer { buffer: *buffer },
            DeviceCommand::CopyBuffer { src, dst, size } => Command::CopyBuffer {
                src: *src,
                dst: *dst,
                size: *size,
            },
            DeviceCommand::DestroyBuffer { buffer } => Command::DestroyBuffer { buffer: *buffer },
            DeviceCommand::CreatePipeline { kernel, source, entry, layout } => {
                Command::CreatePipeline {
                    kernel: *kernel,
                    source: source@,
                    entry: entry@,
                    layout: layout@,
                }
            },
            DeviceCommand::Dispatch { kernel, bindings, groups } => Command::Dispatch {
                kernel: *kernel,
                bindings: bindings@,
                groups: *groups,
            },
        }
    }
}

/// The layout of a kernel with `n_in` read-only buffers followed by
/// `n_out` buffers that it may write: binding `i` is read-only exactly
/// where `i < n_in`.
pub open spec fn storage_layout(n_in: nat, n_out: nat) -> Seq<LayoutEntry> {
    Seq::new(n_in + n_out, |i: int| LayoutEntry { binding: i as u32, read_only: i < n_in })
}

/// The bindings of a dispatch: the inputs in order from binding 0, then
/// the outputs.
pub open spec fn storage_bindings(inputs: Seq<BufferHandle>, outputs: Seq<BufferHandle>) -> Seq<
    BindGroupEntry,
> {
    Seq::new(
        inputs.len() + outputs.len(),
        |i: int|
            BindGroupEntry {
                binding: i as u32,
                buffer: if i < inputs.len() {
                    inputs[i]
                } else {
                    outputs[i - inputs.len()]
                },
            },
    )
}

/// The number of work groups of a given size that cover `total` work
/// items: `total / workgroup_size`, rounded up.
pub open spec fn group_count(total: u32, workgroup_size: u32) -> int {
    (total + workgroup_size - 1) / (workgroup_size as int)
}

/// The command that dispatches a kernel over `total` work items.
pub open spec fn dispatch_command(
    kernel: KernelId,
    inputs: Seq<BufferHandle>,
    outputs: Seq<BufferHandle>,
    total: u32,
    workgroup_size: u32,
) -> Command {
    Command::Dispatch {
        kernel,
        bindings: storage_bindings(inputs, outputs),
        groups: (group_count(total, workgroup_size) as u32, 1u32, 1u32),
    }
}

/// The queue of commands that a backend has yet to perform.
///
/// As a mathematical value the context is the sequence of its commands,
/// oldest first.
pub struct GpuContext {
    commands: Vec<DeviceCommand>,
}

/// The commands of a list as mathematical values.
pub open spec fn command_views(commands: Seq<DeviceCommand>) -> Seq<Command> {
    Seq::new(commands.len(), |i: int| commands[i]@)
}

impl View for GpuContext {
    type V = Seq<Command>;

    closed spec fn view(&self) -> Seq<Command> {
        command_views(self.commands@)
    }
}

impl GpuContext {
    /// A context with nothing recorded.
    pub fn new() -> (ctx: Self)
        ensures
            ctx@ == Seq::<Command>::empty(),
    {
        let ctx = GpuContext { commands: Vec::new() };
        assert(ctx@ =~= Seq::<Command>::empty());
        ctx
    }

    fn record(&mut self, command: DeviceCommand)
        ensures
            final(self)@ == old(self)@.push(command@),
    {
        self.commands.push(command);
        assert(self@ =~= old(self)@.push(command@));
    }

    /// Records the allocation of an uninitialised buffer.
    pub fn create_buffer(&mut self, buffer: BufferHandle)
        ensures
            final(self)@ == old(self)@.push(Command::CreateBuffer { buffer }),
    {
        self.record(DeviceCommand::CreateBuffer { buffer });
    }

    /// Records a blocking write of `data` into a host-writable buffer.
    pub fn write_buffer(&mut self, buffer: BufferHandle, data: &[u8])
        ensures
            final(self)@ == old(self)@.push(Command::WriteBuffer { buffer, data: data@ }),
    {
        let copy = vstd::slice::slice_to_vec(data);
        self.record(DeviceCommand::WriteBuffer { buffer, data: copy });
    }

    /// Records a blocking read of a whole host-readable buffer.
    pub fn read_buffer(&mut self, buffer: BufferHandle)
        ensures
            final(self)@ == old(self)@.push(Command::ReadBuffer { buffer }),
    {
        self.record(DeviceCommand::ReadBuffer { buffer });
    }

    /// Records a copy of `size` bytes from the start of `src` to the
    /// start of `dst`.
    pub fn copy_buffer_to_buffer(&mut self, src: BufferHandle, dst: BufferHandle, size: u64)
        ensures
            final(self)@ == old(self)@.push(Command::CopyBuffer { src, dst, size }),
    {
        self.record(DeviceCommand::CopyBuffer { src, dst, size });
    }

    /// Records that a buffer is given up.
    pub fn destroy_buffer(&mut self, buffer: BufferHandle)
        ensures
            final(self)@ == old(self)@.push(Command::DestroyBuffer { buffer }),
    {
        self.record(DeviceCommand::DestroyBuffer { buffer });
    }

    /// The binding layout of a kernel with `n_in` read-only storage
    /// buffers followed by `n_out` read-write ones.
    pub fn create_storage_layout(&self, n_in: usize, n_out: usize) -> (layout: Vec<LayoutEntry>)
        requires
            n_in + n_out <= u32::MAX,
        ensures
            layout@ == storage_layout(n_in as nat, n_out as nat),
    {
        let mut layout: Vec<LayoutEntry> = Vec::new();
        let mut i: usize = 0;
        while i < n_in
            invariant
                i <= n_in,
                n_in + n_out <= u32::MAX,
                layout@ == storage_layout(n_in as nat, n_out as nat).take(i as int),
            decreases n_in - i,
        {
            layout.push(LayoutEntry { binding: i as u32, read_only: true });
            i += 1;
        }
        let mut k: usize = 0;
        while k < n_out
            invariant
                k <= n_out,
                n_in + n_out <= u32::MAX,
                layout@ == storage_layout(n_in as nat, n_out as nat).take(n_in + k),
            decreases n_out - k,
        {
            layout.push(LayoutEntry { binding: (n_in + k) as u32, read_only: false });
            k += 1;
        }
        assert(layout@ == storage_layout(n_in as nat, n_out as nat));
        layout
    }

    /// Records the build of a compute pipeline from shader source, an
    /// entry point and a binding layout, under the name `kernel`.
    pub fn create_compute_pipeline(
        &mut self,
        kernel: KernelId,
        src: &str,
        entry: &str,
        layout: Vec<LayoutEntry>,
    )
        ensures
            final(self)@ == old(self)@.push(
                Command::CreatePipeline { kernel, source: src@, entry: entry@, layout: layout@ },
            ),
    {
        self.record(
            DeviceCommand::CreatePipeline {
                kernel,
                source: src.to_string(),
                entry: entry.to_string(),
                layout,
            },
        );
    }

    /// The bind group of a dispatch: inputs from binding 0 on, outputs
    /// after them.
    pub fn create_storage_bind_group(&self, inputs: &[BufferHandle], outputs: &[BufferHandle]) -> (bindings:
        Vec<BindGroupEntry>)
        requires
            inputs@.len() + outputs@.len() <= u32::MAX,
        ensures
            bindings@ == storage_bindings(inputs@, outputs@),
    {
        let mut bindings: Vec<BindGroupEntry> = Vec::new();
        let mut i: usize = 0;
        while i < inputs.len()
            invariant
                i <= inputs@.len(),
                inputs@.len() + outputs@.len() <= u32::MAX,
                bindings@ == storage_bindings(inputs@, outputs@).take(i as int),
            decreases inputs@.len() - i,
        {
            bindings.push(BindGroupEntry { binding: i as u32, buffer: inputs[i] });
            i += 1;
        }
        let off: usize = inputs.len();
        let mut k: usize = 0;
        while k < outputs.len()
            invariant
                k <= outputs@.len(),
                off == inputs@.len(),
                inputs@.len() + outputs@.len() <= u32::MAX,
                bindings@ == storage_bindings(inputs@, outputs@).take(off + k),
            decreases outputs@.len() - k,
        {
            bindings.push(BindGroupEntry { binding: (off + k) as u32, buffer: outputs[k] });
            k += 1;
        }
        assert(bindings@ == storage_bindings(inputs@, outputs@));
        bindings
    }

    /// Records a one-dimensional dispatch of `kernel` that covers
    /// `total_elems` work items with groups of `workgroup_size`.
    pub fn dispatch_compute_1d(
        &mut self,
        kernel: KernelId,
        inputs: &[BufferHandle],
        outputs: &[BufferHandle],
        total_elems: u32,
        workgroup_size: u32,
    )
        requires
            workgroup_size > 0,
            inputs@.len() + outputs@.len() <= u32::MAX,
        ensures
            final(self)@ == old(self)@.push(
                dispatch_command(kernel, inputs@, outputs@, total_elems, workgroup_size),
            ),
    {
        let bindings = self.create_storage_bind_group(inputs, outputs);
        let groups = self.dispatch_size_1d(total_elems, workgroup_size);
        self.record(DeviceCommand::Dispatch { kernel, bindings, groups });
    }

    /// The `(x, 1, 1)` group counts of a one-dimensional dispatch: `x` is
    /// `total / workgroup_size`, rounded up.
    pub fn dispatch_size_1d(&self, total: u32, workgroup_size: u32) -> (groups: (u32, u32, u32))
        requires
            workgroup_size > 0,
        ensures
            groups.0 == group_count(total, workgroup_size),
            groups.1 == 1,
            groups.2 == 1,
    {
        let whole: u32 = total / workgroup_size;
        let rest: u32 = total % workgroup_size;
        let x: u32 = if rest == 0 {
            whole
        } else {
            assert(whole < u32::MAX) by (nonlinear_arith)
                requires
                    whole == total as int / workgroup_size as int,
                    rest == total as int % workgroup_size as int,
                    rest != 0,
                    workgroup_size > 0,
                    total <= u32::MAX,
            ;
            whole + 1
        };
        assert(x == group_count(total, workgroup_size)) by (nonlinear_arith)
            requires
                whole == total as int / workgroup_size as int,
                rest == total as int % workgroup_size as int,
                workgroup_size > 0,
                x == if rest == 0 {
                    whole as int
                } else {
                    whole + 1
                },
        ;
        (x, 1, 1)
    }

    /// The number of commands recorded and not yet taken.
    pub fn pending(&self) -> (n: usize)
        ensures
            n == self@.len(),
    {
        self.commands.len()
    }

    /// Hands the recorded commands to the backend, oldest first, and
    /// leaves the queue empty.
    pub fn take_commands(&mut self) -> (commands: Vec<DeviceCommand>)
        ensures
            command_views(commands@) == old(self)@,
            final(self)@ == Seq::<Command>::empty(),
    {
        let mut taken: Vec<DeviceCommand> = Vec::new();
        std::mem::swap(&mut taken, &mut self.commands);
        assert(self@ =~= Seq::<Command>::empty());
        taken
    }
}

} // verus!
