//! The execution engine: from prepared work to device commands.
use vstd::prelude::*;
use crate::device::{
    dispatch_command, BufferHandle, Command, DeviceReport, GpuContext, KernelId,
};
use crate::kernel::{
    build_failed, cache_get, KernelError, KernelKeyView, KernelManager, KernelSlot,
};
use crate::memory::{MemoryManager, MemoryModel};
use crate::ops::{copy_dtypes, GpuTask, GpuTaskView, PreparedOp, PreparedOpView};
use crate::pool::{MemoryError, Outcome};
use crate::view::BufferId;

verus! {

/// Number of work items in one work group of a dispatch.
pub const WORKGROUP_SIZE: u32 = 64;

/// Why a prepared operation did not run to its end.
#[derive(Clone, Copy, Debug, PartialEq, Eq, Structural)]
#[allow(inconsistent_fields)]
pub enum ExecError {
    /// Every buffer of the task is live, but the task does not hang
    /// together: it names a different number of buffers than of element
    /// types, or it has no output view from which a dispatch size within
    /// 32 bits follows.
    InvalidTask,
    /// An input names no live resident buffer.
    MissingInput { id: BufferId },
    /// An output names no live resident buffer.
    MissingOutput { id: BufferId },
    /// A parameter blob could not be put on the device, or the device
    /// refused an allocation or a copy.
    Memory { error: MemoryError },
    /// No kernel could be had for the task, or the device could not
    /// build it.
    Kernel { error: KernelError },
}

/// What the engine works on, as a mathematical value: the memory and the
/// kernel cache.
pub struct Runtime {
    pub memory: MemoryModel,
    pub kernels: Seq<KernelSlot>,
}

/// A task hangs together: as many input buffers as input types, as many
/// output buffers as output types, and a first output view that is well
/// formed and addresses no more elements than 32 bits can count.
pub open spec fn task_wf(task: GpuTaskView) -> bool {
    &&& task.input_ids.len() == task.input_types.len()
    &&& task.output_ids.len() == task.output_types.len()
    &&& task.output_descs.len() > 0
    &&& task.output_descs[0].wf()
    &&& task.output_descs[0].element_count() <= u32::MAX
}

/// The key under which the kernel of a task is cached.
pub open spec fn task_key(task: GpuTaskView) -> KernelKeyView {
    KernelKeyView {
        source: task.pipeline_source,
        entry: task.entry_point,
        input_dtypes: task.input_types,
        output_dtypes: task.output_types,
        param_slots: task.params.len(),
    }
}

/// Releasing the first `n` of `buffers`, in order.
pub open spec fn release_all(memory: MemoryModel, buffers: Seq<BufferHandle>, n: int) -> Outcome<
    MemoryModel,
    (),
>
    decreases n,
{
    if n <= 0 || n > buffers.len() {
        Outcome { state: memory, commands: Seq::empty(), result: () }
    } else {
        let before = release_all(memory, buffers, n - 1);
        let last = before.state.release(buffers[n - 1].id);
        Outcome { state: last.state, commands: before.commands + last.commands, result: () }
    }
}

/// Putting the first `n` parameter blobs on the device, in order: for
/// each a fresh resident buffer, then an upload into it. The result is
/// the handles of the buffers. Where a step fails, every buffer that was
/// allocated for a blob is released again and the failure is the result.
pub open spec fn upload_params(memory: MemoryModel, params: Seq<Seq<u8>>, n: int) -> Outcome<
    MemoryModel,
    Result<Seq<BufferHandle>, MemoryError>,
>
    decreases n,
{
    if n <= 0 || n > params.len() {
        Outcome { state: memory, commands: Seq::empty(), result: Ok(Seq::empty()) }
    } else {
        let before = upload_params(memory, params, n - 1);
        match before.result {
            Err(e) => before,
            Ok(handles) => {
                let blob = params[n - 1];
                let made = before.state.main.create_buffer(blob.len() as usize);
                let allocated = before.state.allocate_raw(blob.len() as usize);
                match made.result {
                    Err(e) => {
                        let back = release_all(allocated.state, handles, handles.len() as int);
                        Outcome {
                            state: back.state,
                            commands: before.commands + allocated.commands + back.commands,
                            result: Err(e),
                        }
                    },
                    Ok(handle) => {
                        let written = allocated.state.write_to_buffer(handle.id, blob);
                        match written.result {
                            Err(e) => {
                                let back = release_all(
                                    written.state,
                                    handles.push(handle),
                                    handles.len() as int + 1,
                                );
                                Outcome {
                                    state: back.state,
                                    commands: before.commands + allocated.commands
                                        + written.commands + back.commands,
                                    result: Err(e),
                                }
                            },
                            Ok(_) => Outcome {
                                state: written.state,
                                commands: before.commands + allocated.commands + written.commands,
                                result: Ok(handles.push(handle)),
                            },
                        }
                    },
                }
            },
        }
    }
}

/// The first position at or after `from` whose identifier names no live
/// resident buffer.
pub open spec fn first_missing(memory: MemoryModel, ids: Seq<BufferId>, from: int) -> Option<int>
    decreases ids.len() - from,
{
    if from < 0 || from >= ids.len() {
        None
    } else if memory.get_ref(ids[from]) is None {
        Some(from)
    } else {
        first_missing(memory, ids, from + 1)
    }
}

/// The handles of the resident buffers that `ids` name.
pub open spec fn handles_of(memory: MemoryModel, ids: Seq<BufferId>) -> Seq<BufferHandle> {
    Seq::new(ids.len(), |i: int| memory.main.handle(ids[i]))
}

/// One dispatch.
///
/// First the inputs and then the outputs are resolved: an identifier
/// that names no live resident buffer ends the run with the first such
/// identifier, whatever else is wrong with the task. Then a task that
/// does not hang together is turned down. Up to here nothing is recorded
/// and nothing changes.
///
/// Then the parameter blobs are put on the device, the kernel is asked
/// of the cache, the dispatch is recorded with the inputs, then the
/// parameter buffers, then the outputs bound in that order, and the
/// parameter buffers are released. Where the kernel cannot be had, the
/// parameter buffers are released all the same.
pub open spec fn run_task(rt: Runtime, task: GpuTaskView) -> Outcome<Runtime, Result<(), ExecError>> {
    let untouched = |error: ExecError|
        Outcome::<Runtime, Result<(), ExecError>> {
            state: rt,
            commands: Seq::empty(),
            result: Err(error),
        };
    match first_missing(rt.memory, task.input_ids, 0) {
        Some(i) => untouched(ExecError::MissingInput { id: task.input_ids[i] }),
        None => match first_missing(rt.memory, task.output_ids, 0) {
            Some(i) => untouched(ExecError::MissingOutput { id: task.output_ids[i] }),
            None => if !task_wf(task) {
                untouched(ExecError::InvalidTask)
            } else {
                let up = upload_params(rt.memory, task.params, task.params.len() as int);
                match up.result {
                    Err(error) => Outcome {
                        state: Runtime { memory: up.state, kernels: rt.kernels },
                        commands: up.commands,
                        result: Err(ExecError::Memory { error }),
                    },
                    Ok(params) => {
                        let built = cache_get(rt.kernels, task_key(task));
                        let back = release_all(up.state, params, params.len() as int);
                        let state = Runtime { memory: back.state, kernels: built.state };
                        match built.result {
                            Err(error) => Outcome {
                                state,
                                commands: up.commands + built.commands + back.commands,
                                result: Err(ExecError::Kernel { error }),
                            },
                            Ok(kernel) => Outcome {
                                state,
                                commands: up.commands + built.commands + seq![
                                    dispatch_command(
                                        kernel,
                                        handles_of(rt.memory, task.input_ids) + params,
                                        handles_of(rt.memory, task.output_ids),
                                        task.output_descs[0].element_count() as u32,
                                        WORKGROUP_SIZE,
                                    ),
                                ] + back.commands,
                                result: Ok(()),
                            },
                        }
                    },
                }
            },
        },
    }
}

/// What the device reports of a command that it could not perform, as
/// the library takes note of it: the memory forgets a buffer that was
/// never made, the cache a kernel that was never built. The result is
/// the error that the report stands for.
pub open spec fn settle(rt: Runtime, report: DeviceReport) -> (Runtime, ExecError) {
    match report {
        DeviceReport::AllocationRejected { buffer } => (
            Runtime { memory: rt.memory.forget(buffer), kernels: rt.kernels },
            ExecError::Memory { error: MemoryError::AllocationFailed { buffer } },
        ),
        DeviceReport::CopyRejected { src, dst } => (
            rt,
            ExecError::Memory { error: MemoryError::CopyFailed { src, dst } },
        ),
        DeviceReport::BuildFailed { kernel } => (
            Runtime { memory: rt.memory, kernels: build_failed(rt.kernels, kernel) },
            ExecError::Kernel { error: KernelError::BuildFailed { kernel } },
        ),
    }
}

/// Running a prepared operation: a single task as `run_task` says, a
/// composite as `run_list` says of all its parts.
pub open spec fn run_op(rt: Runtime, op: PreparedOpView) -> Outcome<Runtime, Result<(), ExecError>>
    decreases op, 0nat,
{
    match op {
        PreparedOpView::Gpu(task) => run_task(rt, task),
        PreparedOpView::Composite(ops) => run_list(rt, ops, ops.len() as int),
    }
}

/// Running the first `n` of `ops` in order. The first failure ends the
/// run: what ran before it stays done, what comes after it is not
/// begun.
pub open spec fn run_list(rt: Runtime, ops: Seq<PreparedOpView>, n: int) -> Outcome<
    Runtime,
    Result<(), ExecError>,
>
    decreases ops, n,
{
    if n <= 0 || n > ops.len() {
        Outcome { state: rt, commands: Seq::empty(), result: Ok(()) }
    } else {
        let before = run_list(rt, ops, n - 1);
        match before.result {
            Err(e) => before,
            Ok(_) => {
                let last = run_op(before.state, ops[n - 1]);
                Outcome {
                    state: last.state,
                    commands: before.commands + last.commands,
                    result: last.result,
                }
            },
        }
    }
}

/// Once an upload has failed, the blobs after the failure change
/// nothing.
pub proof fn lemma_upload_stays_failed(memory: MemoryModel, params: Seq<Seq<u8>>, k: int, n: int)
    requires
        0 <= k <= n <= params.len(),
        upload_params(memory, params, k).result is Err,
    ensures
        upload_params(memory, params, n) == upload_params(memory, params, k),
    decreases n - k,
{
    if k < n {
        lemma_upload_stays_failed(memory, params, k, n - 1);
    }
}

/// Once a part of a composite has failed, the parts after it are not
/// run.
pub proof fn lemma_run_stays_failed(rt: Runtime, ops: Seq<PreparedOpView>, k: int, n: int)
    requires
        0 <= k <= n <= ops.len(),
        run_list(rt, ops, k).result is Err,
    ensures
        run_list(rt, ops, n) == run_list(rt, ops, k),
    decreases n - k,
{
    if k < n {
        lemma_run_stays_failed(rt, ops, k, n - 1);
    }
}

fn release_params(mm: &mut MemoryManager, ctx: &mut GpuContext, params: &Vec<BufferHandle>)
    ensures
        final(mm)@ == release_all(old(mm)@, params@, params@.len() as int).state,
        final(ctx)@ == old(ctx)@ + release_all(old(mm)@, params@, params@.len() as int).commands,
        old(mm)@.wf() ==> final(mm)@.wf(),
{
    let ghost m0 = mm@;
    let ghost c0 = ctx@;
    let mut i: usize = 0;
    assert(c0 + Seq::<Command>::empty() == c0);
    while i < params.len()
        invariant
            i <= params@.len(),
            m0.wf() ==> mm@.wf(),
            mm@ == release_all(m0, params@, i as int).state,
            ctx@ == c0 + release_all(m0, params@, i as int).commands,
        decreases params@.len() - i,
    {
        let ghost before = release_all(m0, params@, i as int);
        mm.release(ctx, params[i].id);
        proof {
            let last = before.state.release(params@[i as int].id);
            assert(ctx@ == c0 + (before.commands + last.commands));
        }
        i += 1;
    }
}

fn resolve(mm: &MemoryManager, ids: &Vec<BufferId>) -> (r: Result<Vec<BufferHandle>, BufferId>)
    ensures
        match first_missing(mm@, ids@, 0) {
            Some(i) => 0 <= i < ids@.len() && (r matches Err(id) && id == ids@[i]),
            None => r matches Ok(handles) && handles@ == handles_of(mm@, ids@),
        },
{
    let mut handles: Vec<BufferHandle> = Vec::new();
    let mut i: usize = 0;
    while i < ids.len()
        invariant
            i <= ids@.len(),
            first_missing(mm@, ids@, 0) == first_missing(mm@, ids@, i as int),
            handles@ == handles_of(mm@, ids@).take(i as int),
        decreases ids@.len() - i,
    {
        match mm.get_ref(ids[i]) {
            Some(handle) => {
                handles.push(handle);
            },
            None => {
                return Err(ids[i]);
            },
        }
        i += 1;
    }
    assert(handles@ == handles_of(mm@, ids@));
    Ok(handles)
}

fn concat_handles(first: &Vec<BufferHandle>, second: &Vec<BufferHandle>) -> (all: Vec<BufferHandle>)
    ensures
        all@ == first@ + second@,
{
    let mut all: Vec<BufferHandle> = Vec::new();
    let mut i: usize = 0;
    while i < first.len()
        invariant
            i <= first@.len(),
            all@ == first@.take(i as int),
        decreases first@.len() - i,
    {
        all.push(first[i]);
        i += 1;
    }
    assert(first@.take(first@.len() as int) == first@);
    let mut k: usize = 0;
    while k < second.len()
        invariant
            k <= second@.len(),
            all@ == first@ + second@.take(k as int),
        decreases second@.len() - k,
    {
        all.push(second[k]);
        k += 1;
    }
    assert(second@.take(second@.len() as int) == second@);
    all
}

fn upload_all(mm: &mut MemoryManager, ctx: &mut GpuContext, task: &GpuTask) -> (r: Result<
    Vec<BufferHandle>,
    MemoryError,
>)
    ensures
        final(mm)@ == upload_params(old(mm)@, task@.params, task@.params.len() as int).state,
        final(ctx)@ == old(ctx)@ + upload_params(
            old(mm)@,
            task@.params,
            task@.params.len() as int,
        ).commands,
        match upload_params(old(mm)@, task@.params, task@.params.len() as int).result {
            Ok(handles) => r matches Ok(v) && v@ == handles,
            Err(e) => r matches Err(x) && x == e,
        },
        old(mm)@.wf() ==> final(mm)@.wf(),
{
    let ghost m0 = mm@;
    let ghost c0 = ctx@;
    let ghost blobs = task@.params;
    let ghost total = blobs.len() as int;
    let mut params: Vec<BufferHandle> = Vec::new();
    let mut i: usize = 0;
    assert(c0 + Seq::<Command>::empty() == c0);
    while i < task.params.len()
        invariant
            i <= task.params@.len(),
            m0 == old(mm)@,
            c0 == old(ctx)@,
            m0.wf() ==> mm@.wf(),
            blobs == task@.params,
            total == blobs.len(),
            total == task.params@.len(),
            mm@ == upload_params(m0, blobs, i as int).state,
            ctx@ == c0 + upload_params(m0, blobs, i as int).commands,
            upload_params(m0, blobs, i as int).result == Ok::<Seq<BufferHandle>, MemoryError>(
                params@,
            ),
        decreases task.params@.len() - i,
    {
        let ghost before = upload_params(m0, blobs, i as int);
        let ghost step = upload_params(m0, blobs, i + 1);
        let blob = &task.params[i].bytes;
        assert(blobs[i as int] == blob@);
        assert(blob@.len() == blob.len());
        assert(0 < i + 1 <= blobs.len());
        let ghost made = before.state.main.create_buffer(blob.len());
        let ghost allocated = before.state.allocate_raw(blob.len());
        match mm.allocate_raw(ctx, blob.len()) {
            Err(e) => {
                let ghost back = release_all(allocated.state, params@, params@.len() as int);
                release_params(mm, ctx, &params);
                proof {
                    assert(ctx@ == c0 + (before.commands + allocated.commands + back.commands));
                    assert(made.result == Err::<BufferHandle, MemoryError>(e));
                    assert(step == Outcome {
                        state: back.state,
                        commands: before.commands + allocated.commands + back.commands,
                        result: Err::<Seq<BufferHandle>, MemoryError>(e),
                    });
                    lemma_upload_stays_failed(m0, blobs, i + 1, total);
                }
                return Err(e);
            },
            Ok(id) => {
                let handle = mm.get_ref(id).unwrap();
                let ghost written = allocated.state.write_to_buffer(id, blob@);
                let ghost uploaded = params@;
                assert(made.result == Ok::<BufferHandle, MemoryError>(handle));
                match mm.write_to_buffer(ctx, id, blob.as_slice()) {
                    Err(e) => {
                        params.push(handle);
                        let ghost back = release_all(
                            written.state,
                            params@,
                            params@.len() as int,
                        );
                        release_params(mm, ctx, &params);
                        proof {
                            assert(ctx@ == c0 + (before.commands + allocated.commands
                                + written.commands + back.commands));
                            assert(step == Outcome {
                                state: back.state,
                                commands: before.commands + allocated.commands + written.commands
                                    + back.commands,
                                result: Err::<Seq<BufferHandle>, MemoryError>(e),
                            });
                            lemma_upload_stays_failed(m0, blobs, i + 1, total);
                        }
                        return Err(e);
                    },
                    Ok(()) => {
                        params.push(handle);
                        proof {
                            assert(ctx@ == c0 + (before.commands + allocated.commands
                                + written.commands));
                            assert(step == Outcome {
                                state: written.state,
                                commands: before.commands + allocated.commands + written.commands,
                                result: Ok::<Seq<BufferHandle>, MemoryError>(
                                    uploaded.push(handle),
                                ),
                            });
                        }
                    },
                }
            },
        }
        i += 1;
    }
    Ok(params)
}

/// Turns prepared work into device commands, with a kernel cache of its
/// own.
///
/// As a mathematical value the engine is its kernel cache.
pub struct ExecutionEngine {
    kernels: KernelManager,
}

impl View for ExecutionEngine {
    type V = Seq<KernelSlot>;

    closed spec fn view(&self) -> Seq<KernelSlot> {
        self.kernels@
    }
}

impl ExecutionEngine {
    /// An engine that has built no kernel yet.
    pub fn new() -> (engine: Self)
        ensures
            engine@ == Seq::<KernelSlot>::empty(),
    {
        ExecutionEngine { kernels: KernelManager::new() }
    }

    /// Runs one task: see `run_task`.
    pub fn run_gpu_task(&mut self, task: &GpuTask, mm: &mut MemoryManager, ctx: &mut GpuContext) -> (r:
        Result<(), ExecError>)
        ensures
            ({
                let o = run_task(Runtime { memory: old(mm)@, kernels: old(self)@ }, task@);
                &&& final(mm)@ == o.state.memory
                &&& final(self)@ == o.state.kernels
                &&& final(ctx)@ == old(ctx)@ + o.commands
                &&& r == o.result
            }),
            old(mm)@.wf() ==> final(mm)@.wf(),
    {
        let ghost rt = Runtime { memory: mm@, kernels: self@ };
        let ghost c0 = ctx@;
        assert(c0 + Seq::<Command>::empty() == c0);
        let inputs = match resolve(mm, &task.input_ids) {
            Ok(handles) => handles,
            Err(id) => {
                return Err(ExecError::MissingInput { id });
            },
        };
        let outputs = match resolve(mm, &task.output_ids) {
            Ok(handles) => handles,
            Err(id) => {
                return Err(ExecError::MissingOutput { id });
            },
        };
        if task.input_ids.len() != task.input_types.len() || task.output_ids.len()
            != task.output_types.len() || task.output_descs.len() == 0 {
            return Err(ExecError::InvalidTask);
        }
        let total: u32 = match task.output_descs[0].total_elems() {
            Some(total) => total,
            None => {
                return Err(ExecError::InvalidTask);
            },
        };
        let ghost up = upload_params(rt.memory, task@.params, task@.params.len() as int);
        let params = match upload_all(mm, ctx, task) {
            Ok(params) => params,
            Err(error) => {
                return Err(ExecError::Memory { error });
            },
        };
        let ghost built = cache_get(rt.kernels, task_key(task@));
        let ghost back = release_all(up.state, params@, params@.len() as int);
        let kernel = self.kernels.get(
            ctx,
            task.pipeline_source.as_str(),
            task.entry_point.as_str(),
            copy_dtypes(&task.input_types),
            copy_dtypes(&task.output_types),
            task.params.len(),
        );
        assert(ctx@ == c0 + (up.commands + built.commands));
        let kernel: KernelId = match kernel {
            Ok(kernel) => kernel,
            Err(error) => {
                release_params(mm, ctx, &params);
                assert(ctx@ == c0 + (up.commands + built.commands + back.commands));
                return Err(ExecError::Kernel { error });
            },
        };
        let bound = concat_handles(&inputs, &params);
        proof {
            assert(task_key(task@).bindable());
            assert(params@.len() == task@.params.len()) by {
                lemma_upload_count(rt.memory, task@.params, task@.params.len() as int);
            }
        }
        ctx.dispatch_compute_1d(
            kernel,
            bound.as_slice(),
            outputs.as_slice(),
            total,
            WORKGROUP_SIZE,
        );
        let ghost dispatch = dispatch_command(
            kernel,
            handles_of(rt.memory, task@.input_ids) + params@,
            handles_of(rt.memory, task@.output_ids),
            total,
            WORKGROUP_SIZE,
        );
        assert(ctx@ == c0 + (up.commands + built.commands + seq![dispatch]));
        release_params(mm, ctx, &params);
        assert(ctx@ == c0 + (up.commands + built.commands + seq![dispatch] + back.commands));
        Ok(())
    }

    /// Takes note of what the device reports of a command that it could
    /// not perform, and gives the error that the report stands for: a
    /// buffer that the device did not allocate is forgotten, a kernel
    /// that it did not build is found no more, a copy that it refused
    /// changes nothing.
    pub fn device_reported(&mut self, mm: &mut MemoryManager, report: DeviceReport) -> (error:
        ExecError)
        ensures
            final(mm)@ == settle(Runtime { memory: old(mm)@, kernels: old(self)@ }, report).0.memory,
            final(self)@ == settle(
                Runtime { memory: old(mm)@, kernels: old(self)@ },
                report,
            ).0.kernels,
            error == settle(Runtime { memory: old(mm)@, kernels: old(self)@ }, report).1,
            old(mm)@.wf() ==> final(mm)@.wf(),
    {
        match report {
            DeviceReport::BuildFailed { kernel } => ExecError::Kernel {
                error: self.kernels.build_failed(kernel),
            },
            _ => ExecError::Memory { error: mm.device_reported(report).unwrap() },
        }
    }

    /// Runs a prepared operation: a single task, or the parts of a
    /// composite one after the other, depth first. The first failure is
    /// the result, and nothing after it is begun; what was done before
    /// it stays done.
    pub fn run_prepared(
        &mut self,
        prepared: &PreparedOp,
        mm: &mut MemoryManager,
        ctx: &mut GpuContext,
    ) -> (r: Result<(), ExecError>)
        ensures
            ({
                let o = run_op(Runtime { memory: old(mm)@, kernels: old(self)@ }, prepared@);
                &&& final(mm)@ == o.state.memory
                &&& final(self)@ == o.state.kernels
                &&& final(ctx)@ == old(ctx)@ + o.commands
                &&& r == o.result
            }),
            old(mm)@.wf() ==> final(mm)@.wf(),
        decreases prepared,
    {
        match prepared {
            PreparedOp::Gpu(task) => {
                assert(prepared@ == PreparedOpView::Gpu(task@));
                self.run_gpu_task(task, mm, ctx)
            },
            PreparedOp::Composite(ops) => {
                let ghost rt = Runtime { memory: mm@, kernels: self@ };
                let ghost c0 = ctx@;
                let ghost parts = prepared@->Composite_0;
                assert(c0 + Seq::<Command>::empty() == c0);
                let mut i: usize = 0;
                while i < ops.len()
                    invariant
                        i <= ops@.len(),
                        decreases_to!(*prepared => *ops),
                        rt == (Runtime { memory: old(mm)@, kernels: old(self)@ }),
                        c0 == old(ctx)@,
                        rt.memory.wf() ==> mm@.wf(),
                        prepared@ == PreparedOpView::Composite(parts),
                        parts.len() == ops@.len(),
                        forall|j: int| 0 <= j < ops@.len() ==> parts[j] == (#[trigger] ops@[j])@,
                        run_list(rt, parts, i as int).result is Ok,
                        mm@ == run_list(rt, parts, i as int).state.memory,
                        self@ == run_list(rt, parts, i as int).state.kernels,
                        ctx@ == c0 + run_list(rt, parts, i as int).commands,
                    decreases ops@.len() - i,
                {
                    let ghost before = run_list(rt, parts, i as int);
                    let ghost last = run_op(before.state, parts[i as int]);
                    assert(ops@[i as int]@ == parts[i as int]);
                    assert(Runtime { memory: mm@, kernels: self@ } == before.state);
                    assert(decreases_to!(*ops => ops@[i as int]));
                    let r = self.run_prepared(&ops[i], mm, ctx);
                    assert(ctx@ == c0 + (before.commands + last.commands));
                    assert(run_list(rt, parts, i + 1) == Outcome {
                        state: last.state,
                        commands: before.commands + last.commands,
                        result: last.result,
                    });
                    match r {
                        Err(e) => {
                            proof {
                                lemma_run_stays_failed(rt, parts, i + 1, parts.len() as int);
                            }
                            return Err(e);
                        },
                        Ok(()) => {},
                    }
                    i += 1;
                }
                assert(run_list(rt, parts, parts.len() as int).result->Ok_0 == ());
                Ok(())
            },
        }
    }
}

/// An upload that succeeds yields one handle per blob.
pub proof fn lemma_upload_count(memory: MemoryModel, params: Seq<Seq<u8>>, n: int)
    requires
        0 <= n <= params.len(),
    ensures
        upload_params(memory, params, n).result matches Ok(handles) ==> handles.len() == n,
    decreases n,
{
    if n > 0 {
        lemma_upload_count(memory, params, n - 1);
    }
}

} // verus!
