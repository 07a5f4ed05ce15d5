//! The engine's commands are in order.
//!
//! Whatever prepared work the engine is given, and whether it succeeds
//! or fails, the commands it records can be performed one after the
//! other by any device that holds the buffers and kernels the library
//! has on record, and afterwards the device again holds just what the
//! library has on record. Where the device does not perform a command
//! after all, the library takes note of its report and the two are in
//! step again.
use vstd::prelude::*;
use crate::device::{
    dispatch_command, storage_bindings, storage_layout, BufferHandle, BufferKind, Command,
    DeviceReport, KernelId,
};
use crate::engine::{
    first_missing, handles_of, release_all, run_list, run_op, run_task, settle, task_key,
    task_wf, upload_params, ExecError, Runtime, WORKGROUP_SIZE,
};
use crate::kernel::{cache_get, lemma_position_from, position, KernelKeyView, KernelSlot};
use crate::memory::MemoryModel;
use crate::model::{
    lemma_allocate_in_order, lemma_release_in_order, lemma_run_concat, lemma_run_one,
    lemma_upload_in_order, mirrors, pool_of, DeviceState,
};
use crate::ops::{GpuTaskView, PreparedOpView};
use crate::tensor::allocate_and_upload;
use crate::view::BufferId;

verus! {

/// The device holds exactly the kernels that the cache holds as usable,
/// each with the layout of its key.
pub open spec fn kernels_mirror(keys: Seq<KernelSlot>, device: DeviceState) -> bool {
    &&& keys.len() < u64::MAX
    &&& forall|kernel: KernelId|
        #![trigger device.kernels.contains_key(kernel)]
        device.kernels.contains_key(kernel) <==> kernel.0 < keys.len() && keys[kernel.0 as int].usable
    &&& forall|i: int|
        0 <= i < keys.len() ==> (#[trigger] keys[i]).key.bindable() && (keys[i].usable
            ==> device.kernels[KernelId(i as u64)] == storage_layout(
            keys[i].key.read_only_slots(),
            keys[i].key.read_write_slots(),
        ))
}

/// The device holds just what the library has on record: its buffers
/// with their sizes, and its kernels with their layouts.
pub open spec fn in_step(rt: Runtime, device: DeviceState) -> bool {
    &&& rt.memory.wf()
    &&& mirrors(rt.memory, device)
    &&& kernels_mirror(rt.kernels, device)
}

/// A runtime that has done nothing is in step with a device of which
/// nothing was asked.
pub proof fn lemma_in_step_at_start(noise: spec_fn(nat, (BufferKind, BufferId)) -> Seq<u8>)
    ensures
        in_step(
            Runtime { memory: MemoryModel::empty(), kernels: Seq::empty() },
            DeviceState::fresh(noise),
        ),
{
}

/// A report keeps runtime and device in step: once the library has
/// taken note of a command that the device did not perform, it has on
/// record just what the device holds without it.
pub proof fn lemma_settle_in_step(rt: Runtime, device: DeviceState, report: DeviceReport)
    requires
        in_step(rt, device),
    ensures
        in_step(settle(rt, report).0, device.without(report)),
{
    let after = device.without(report);
    let state = settle(rt, report).0;
    assert forall|kind: BufferKind, id: BufferId|
        #![trigger after.buffers.contains_key((kind, id))]
        {
            &&& after.buffers.contains_key((kind, id)) <==> pool_of(state.memory, kind).contains(id)
            &&& pool_of(state.memory, kind).contains(id) ==> after.buffers[(kind, id)].len()
                == pool_of(state.memory, kind).sizes[id.0]
        } by {
        assert(device.buffers.contains_key((kind, id)) <==> pool_of(rt.memory, kind).contains(id));
    }
    assert forall|kernel: KernelId|
        #![trigger after.kernels.contains_key(kernel)]
        after.kernels.contains_key(kernel) <==> kernel.0 < state.kernels.len()
            && state.kernels[kernel.0 as int].usable by {
        assert(device.kernels.contains_key(kernel) <==> kernel.0 < rt.kernels.len()
            && rt.kernels[kernel.0 as int].usable);
    }
    assert forall|i: int| 0 <= i < state.kernels.len() implies (#[trigger] state.kernels[
        i
    ]).key.bindable() && (state.kernels[i].usable ==> after.kernels[KernelId(i as u64)]
        == storage_layout(
        state.kernels[i].key.read_only_slots(),
        state.kernels[i].key.read_write_slots(),
    )) by {
        assert(rt.kernels[i].key.bindable());
    }
}

/// Releasing buffers is in order and keeps memory and device in step.
pub proof fn lemma_release_all_in_order(
    memory: MemoryModel,
    device: DeviceState,
    buffers: Seq<BufferHandle>,
    n: int,
)
    requires
        memory.wf(),
        mirrors(memory, device),
    ensures
        ({
            let o = release_all(memory, buffers, n);
            let after = device.run(o.commands);
            &&& o.state.wf()
            &&& device.accepts_all(o.commands)
            &&& mirrors(o.state, after)
            &&& after.kernels == device.kernels
        }),
    decreases n,
{
    if n <= 0 || n > buffers.len() {
    } else {
        lemma_release_all_in_order(memory, device, buffers, n - 1);
        let before = release_all(memory, buffers, n - 1);
        let middle = device.run(before.commands);
        let last = before.state.release(buffers[n - 1].id);
        lemma_release_in_order(before.state, middle, buffers[n - 1].id);
        lemma_run_concat(device, before.commands, last.commands);
    }
}

/// Uploading parameter blobs is in order and keeps memory and device in
/// step, whether it succeeds or fails. Where it succeeds, every handle
/// it gives names a live resident buffer.
pub proof fn lemma_upload_params_in_order(
    memory: MemoryModel,
    device: DeviceState,
    params: Seq<Seq<u8>>,
    n: int,
)
    requires
        memory.wf(),
        mirrors(memory, device),
    ensures
        ({
            let o = upload_params(memory, params, n);
            let after = device.run(o.commands);
            &&& o.state.wf()
            &&& device.accepts_all(o.commands)
            &&& mirrors(o.state, after)
            &&& after.kernels == device.kernels
            &&& o.result matches Ok(handles) ==> forall|j: int|
                0 <= j < handles.len() ==> o.state.get_ref((#[trigger] handles[j]).id) == Some(
                    handles[j],
                )
            &&& o.result is Ok ==> forall|id: BufferId|
                memory.get_ref(id) is Some ==> #[trigger] o.state.get_ref(id) == memory.get_ref(id)
        }),
    decreases n,
{
    if n <= 0 || n > params.len() {
    } else {
        lemma_upload_params_in_order(memory, device, params, n - 1);
        let before = upload_params(memory, params, n - 1);
        let d0 = device.run(before.commands);
        if let Ok(handles) = before.result {
            let blob = params[n - 1];
            let size = blob.len() as usize;
            let made = before.state.main.create_buffer(size);
            let allocated = before.state.allocate_raw(size);
            lemma_allocate_in_order(before.state, d0, size);
            let d1 = d0.run(allocated.commands);
            lemma_run_concat(device, before.commands, allocated.commands);
            match made.result {
                Err(e) => {
                    let back = release_all(allocated.state, handles, handles.len() as int);
                    lemma_release_all_in_order(allocated.state, d1, handles, handles.len() as int);
                    lemma_run_concat(
                        device,
                        before.commands + allocated.commands,
                        back.commands,
                    );
                },
                Ok(handle) => {
                    let written = allocated.state.write_to_buffer(handle.id, blob);
                    lemma_upload_in_order(allocated.state, d1, handle.id, blob);
                    let d2 = d1.run(written.commands);
                    lemma_run_concat(
                        device,
                        before.commands + allocated.commands,
                        written.commands,
                    );
                    match written.result {
                        Err(e) => {
                            let all = handles.push(handle);
                            let back = release_all(written.state, all, all.len() as int);
                            lemma_release_all_in_order(written.state, d2, all, all.len() as int);
                            lemma_run_concat(
                                device,
                                before.commands + allocated.commands + written.commands,
                                back.commands,
                            );
                        },
                        Ok(_) => {
                            let all = handles.push(handle);
                            assert forall|j: int| 0 <= j < all.len() implies written.state.get_ref(
                                (#[trigger] all[j]).id,
                            ) == Some(all[j]) by {
                                if j < handles.len() {
                                    assert(before.state.get_ref(handles[j].id) == Some(
                                        handles[j],
                                    ));
                                }
                            }
                            assert forall|id: BufferId| memory.get_ref(id) is Some implies #[trigger]
                                written.state.get_ref(id) == memory.get_ref(id) by {
                                assert(before.state.get_ref(id) == memory.get_ref(id));
                            }
                        },
                    }
                },
            }
        }
    }
}

/// Making a tensor from host data is in order and keeps memory and
/// device in step, whether it succeeds or fails. Where it succeeds, the
/// new buffer begins with the uploaded bytes.
pub proof fn lemma_allocate_and_upload_in_order(
    memory: MemoryModel,
    device: DeviceState,
    size: usize,
    image: Seq<u8>,
)
    requires
        memory.wf(),
        mirrors(memory, device),
    ensures
        ({
            let o = allocate_and_upload(memory, size, image);
            let after = device.run(o.commands);
            &&& o.state.wf()
            &&& device.accepts_all(o.commands)
            &&& mirrors(o.state, after)
            &&& after.kernels == device.kernels
            &&& after.reads == device.reads
            &&& o.result matches Ok(id) ==> {
                &&& o.state.get_ref(id) == Some(
                    BufferHandle { kind: BufferKind::Main, id, size },
                )
                &&& after.buffers[(BufferKind::Main, id)].take(image.len() as int) == image
            }
        }),
{
    let allocated = memory.allocate_raw(size);
    lemma_allocate_in_order(memory, device, size);
    let d1 = device.run(allocated.commands);
    if let Ok(id) = allocated.result {
        let written = allocated.state.write_to_buffer(id, image);
        lemma_upload_in_order(allocated.state, d1, id, image);
        let d2 = d1.run(written.commands);
        lemma_run_concat(device, allocated.commands, written.commands);
        if written.result is Ok {
            assert(d2.buffers[(BufferKind::Main, id)].take(image.len() as int) =~= image);
        } else {
            let back = written.state.release(id);
            lemma_release_in_order(written.state, d2, id);
            lemma_run_concat(device, allocated.commands + written.commands, back.commands);
        }
    }
}

/// A request to the kernel cache is in order and keeps cache and device
/// in step. The kernel it names is one that the device holds
/// afterwards, with the layout of the key.
pub proof fn lemma_cache_get_in_order(
    keys: Seq<KernelSlot>,
    device: DeviceState,
    key: KernelKeyView,
)
    requires
        kernels_mirror(keys, device),
    ensures
        ({
            let o = cache_get(keys, key);
            let after = device.run(o.commands);
            &&& device.accepts_all(o.commands)
            &&& kernels_mirror(o.state, after)
            &&& after.buffers == device.buffers
            &&& o.result matches Ok(kernel) ==> {
                &&& after.kernels.contains_key(kernel)
                &&& after.kernels[kernel] == storage_layout(
                    key.read_only_slots(),
                    key.read_write_slots(),
                )
            }
        }),
{
    let o = cache_get(keys, key);
    if !key.bindable() {
    } else {
        lemma_position_from(keys, key, 0);
        match position(keys, key) {
            Some(i) => {
                assert(keys[i].key == key);
                assert(device.kernels.contains_key(KernelId(i as u64)));
            },
            None => if keys.len() + 1 < u64::MAX {
                let kernel = KernelId(keys.len() as u64);
                let build = key.build_command(kernel);
                assert(o.commands =~= seq![build]);
                lemma_run_one(device, build);
                let after = device.run(o.commands);
                assert(!device.kernels.contains_key(kernel));
                assert forall|later: KernelId|
                    #![trigger after.kernels.contains_key(later)]
                    after.kernels.contains_key(later) <==> later.0 < o.state.len() && o.state[later.0 as int].usable by {
                    assert(device.kernels.contains_key(later) <==> later.0 < keys.len()
                        && keys[later.0 as int].usable);
                }
                assert forall|i: int| 0 <= i < o.state.len() implies (#[trigger] o.state[
                    i
                ]).key.bindable() && (o.state[i].usable ==> after.kernels[KernelId(i as u64)]
                    == storage_layout(
                    o.state[i].key.read_only_slots(),
                    o.state[i].key.read_write_slots(),
                )) by {
                    if i < keys.len() {
                        assert(keys[i].key.bindable());
                    }
                }
            },
        }
    }
}

/// A dispatch on live storage buffers, with as many buffers as the
/// kernel's layout has slots, is in order; it changes the bytes of
/// buffers at most, never which buffers there are or how long they are.
pub proof fn lemma_dispatch_in_order(
    memory: MemoryModel,
    device: DeviceState,
    kernel: KernelId,
    inputs: Seq<BufferHandle>,
    outputs: Seq<BufferHandle>,
    total: u32,
)
    requires
        memory.wf(),
        mirrors(memory, device),
        device.kernels.contains_key(kernel),
        device.kernels[kernel].len() == inputs.len() + outputs.len(),
        inputs.len() + outputs.len() <= u32::MAX,
        forall|j: int|
            0 <= j < inputs.len() ==> memory.get_ref((#[trigger] inputs[j]).id) == Some(inputs[j]),
        forall|j: int|
            0 <= j < outputs.len() ==> memory.get_ref((#[trigger] outputs[j]).id) == Some(
                outputs[j],
            ),
    ensures
        ({
            let dispatch = dispatch_command(kernel, inputs, outputs, total, WORKGROUP_SIZE);
            let after = device.apply(dispatch);
            &&& device.accepts(dispatch)
            &&& mirrors(memory, after)
            &&& after.kernels == device.kernels
            &&& after.reads == device.reads
        }),
{
    let bindings = storage_bindings(inputs, outputs);
    let dispatch = dispatch_command(kernel, inputs, outputs, total, WORKGROUP_SIZE);
    let after = device.apply(dispatch);
    assert forall|i: int| 0 <= i < bindings.len() implies {
        &&& (#[trigger] bindings[i]).binding == i
        &&& device.live(bindings[i].buffer)
        &&& bindings[i].buffer.kind.spec_usage().storage
    } by {
        let buffer = bindings[i].buffer;
        if i < inputs.len() {
            assert(memory.get_ref(inputs[i].id) == Some(inputs[i]));
        } else {
            assert(memory.get_ref(outputs[i - inputs.len()].id) == Some(
                outputs[i - inputs.len()],
            ));
        }
        assert(buffer.kind == BufferKind::Main);
        assert(device.buffers.contains_key((BufferKind::Main, buffer.id)));
    }
    assert forall|kind: BufferKind, id: BufferId|
        #![trigger after.buffers.contains_key((kind, id))]
        {
            &&& after.buffers.contains_key((kind, id)) <==> pool_of(memory, kind).contains(id)
            &&& pool_of(memory, kind).contains(id) ==> after.buffers[(kind, id)].len() == pool_of(
                memory,
                kind,
            ).sizes[id.0]
        } by {
        assert(device.buffers.contains_key((kind, id)) <==> pool_of(memory, kind).contains(id));

    }
}

/// Where no identifier of a list is missing, every handle resolved for
/// it names a live resident buffer.
pub proof fn lemma_resolved_handles_live(memory: MemoryModel, ids: Seq<BufferId>, from: int)
    requires
        0 <= from,
        first_missing(memory, ids, from) is None,
    ensures
        forall|j: int|
            from <= j < ids.len() ==> memory.get_ref(#[trigger] ids[j]) == Some(
                memory.main.handle(ids[j]),
            ),
    decreases ids.len() - from,
{
    if from < ids.len() {
        lemma_resolved_handles_live(memory, ids, from + 1);
    }
}

/// One task is in order: whether it runs to its end or fails on the
/// way, its commands can be performed, and runtime and device are in
/// step again after them.
pub proof fn lemma_run_task_in_order(rt: Runtime, device: DeviceState, task: GpuTaskView)
    requires
        in_step(rt, device),
    ensures
        ({
            let o = run_task(rt, task);
            &&& device.accepts_all(o.commands)
            &&& in_step(o.state, device.run(o.commands))
        }),
{
    let o = run_task(rt, task);
    let resolved = first_missing(rt.memory, task.input_ids, 0) is None && first_missing(
        rt.memory,
        task.output_ids,
        0,
    ) is None;
    if resolved && task_wf(task) {
        let count = task.params.len() as int;
        lemma_upload_params_in_order(rt.memory, device, task.params, count);
        crate::engine::lemma_upload_count(rt.memory, task.params, count);
        let up = upload_params(rt.memory, task.params, count);
        let d1 = device.run(up.commands);
        if let Ok(params) = up.result {
            let key = task_key(task);
            let built = cache_get(rt.kernels, key);
            lemma_cache_get_in_order(rt.kernels, d1, key);
            let d2 = d1.run(built.commands);
            lemma_run_concat(device, up.commands, built.commands);
            let back = release_all(up.state, params, params.len() as int);
            let inputs = handles_of(rt.memory, task.input_ids) + params;
            let outputs = handles_of(rt.memory, task.output_ids);
            if built.result is Ok {
                let kernel = built.result->Ok_0;
                let total = task.output_descs[0].element_count() as u32;
                let dispatch = dispatch_command(kernel, inputs, outputs, total, WORKGROUP_SIZE);
                lemma_resolved_handles_live(rt.memory, task.input_ids, 0);
                lemma_resolved_handles_live(rt.memory, task.output_ids, 0);
                assert forall|j: int| 0 <= j < inputs.len() implies up.state.get_ref(
                    (#[trigger] inputs[j]).id,
                ) == Some(inputs[j]) by {
                    if j < task.input_ids.len() {
                        let id = task.input_ids[j];
                        assert(rt.memory.get_ref(id) == Some(rt.memory.main.handle(id)));
                        assert(up.state.get_ref(id) == rt.memory.get_ref(id));
                    } else {
                        assert(inputs[j] == params[j - task.input_ids.len()]);
                    }
                }
                assert forall|j: int| 0 <= j < outputs.len() implies up.state.get_ref(
                    (#[trigger] outputs[j]).id,
                ) == Some(outputs[j]) by {
                    let id = task.output_ids[j];
                    assert(rt.memory.get_ref(id) == Some(rt.memory.main.handle(id)));
                    assert(up.state.get_ref(id) == rt.memory.get_ref(id));
                }
                assert(key.bindable());
                lemma_dispatch_in_order(up.state, d2, kernel, inputs, outputs, total);
                lemma_run_one(d2, dispatch);
                let d3 = d2.apply(dispatch);
                lemma_run_concat(device, up.commands + built.commands, seq![dispatch]);
                lemma_release_all_in_order(up.state, d3, params, params.len() as int);
                lemma_run_concat(
                    device,
                    up.commands + built.commands + seq![dispatch],
                    back.commands,
                );
            } else {
                lemma_release_all_in_order(up.state, d2, params, params.len() as int);
                lemma_run_concat(device, up.commands + built.commands, back.commands);
            }
        }
    }
}

/// A missing buffer is reported whatever else is wrong. Where an input
/// or an output of a task names no live resident buffer, the run fails
/// with the first such identifier, inputs before outputs; nothing is
/// recorded, so no dispatch is made and no buffer is touched, and
/// memory and cache are as they were.
pub proof fn lemma_missing_buffer_reported(rt: Runtime, task: GpuTaskView, at: int)
    requires
        0 <= at < task.input_ids.len() && rt.memory.get_ref(task.input_ids[at]) is None || 0 <= at
            < task.output_ids.len() && rt.memory.get_ref(task.output_ids[at]) is None,
    ensures
        ({
            let o = run_task(rt, task);
            &&& o.state == rt
            &&& o.commands == Seq::<Command>::empty()
            &&& o.result matches Err(e) && (e is MissingInput || e is MissingOutput)
            &&& o.result matches Err(ExecError::MissingInput { id }) ==> rt.memory.get_ref(id)
                is None && task.input_ids.contains(id)
            &&& o.result matches Err(ExecError::MissingOutput { id }) ==> rt.memory.get_ref(id)
                is None && task.output_ids.contains(id)
            &&& forall|i: int|
                0 <= i < task.input_ids.len() && rt.memory.get_ref(task.input_ids[i]) is None && (
                forall|j: int| 0 <= j < i ==> rt.memory.get_ref(#[trigger] task.input_ids[j])
                    is Some) ==> o.result == Err::<(), ExecError>(
                    ExecError::MissingInput { id: #[trigger] task.input_ids[i] },
                )
        }),
{
    lemma_first_missing(rt.memory, task.input_ids, 0);
    lemma_first_missing(rt.memory, task.output_ids, 0);
    let o = run_task(rt, task);
    assert forall|i: int|
        0 <= i < task.input_ids.len() && rt.memory.get_ref(task.input_ids[i]) is None && (forall|
            j: int,
        | 0 <= j < i ==> rt.memory.get_ref(#[trigger] task.input_ids[j]) is Some) implies o.result
        == Err::<(), ExecError>(ExecError::MissingInput { id: #[trigger] task.input_ids[i] }) by {
        let found = first_missing(rt.memory, task.input_ids, 0)->0;
        if found < i {
            assert(rt.memory.get_ref(task.input_ids[found]) is Some);
        }
        if i < found {
            assert(rt.memory.get_ref(task.input_ids[i]) is Some);
        }
    }
}

/// `first_missing` finds the least position of an identifier that is not
/// live, and none exactly where every identifier is live.
pub proof fn lemma_first_missing(memory: MemoryModel, ids: Seq<BufferId>, from: int)
    requires
        0 <= from,
    ensures
        match first_missing(memory, ids, from) {
            Some(i) => from <= i < ids.len() && memory.get_ref(ids[i]) is None && forall|j: int|
                from <= j < i ==> memory.get_ref(#[trigger] ids[j]) is Some,
            None => forall|j: int|
                from <= j < ids.len() ==> memory.get_ref(#[trigger] ids[j]) is Some,
        },
    decreases ids.len() - from,
{
    if from < ids.len() && memory.get_ref(ids[from]) is Some {
        lemma_first_missing(memory, ids, from + 1);
    }
}

/// Prepared work is in order: whatever the engine is given, and whether
/// it runs to its end or fails, the commands it records can be
/// performed one after the other by a device that is in step with the
/// runtime, and the two are in step again afterwards.
pub proof fn lemma_run_op_in_order(rt: Runtime, device: DeviceState, op: PreparedOpView)
    requires
        in_step(rt, device),
    ensures
        ({
            let o = run_op(rt, op);
            &&& device.accepts_all(o.commands)
            &&& in_step(o.state, device.run(o.commands))
        }),
    decreases op, 0nat,
{
    match op {
        PreparedOpView::Gpu(task) => {
            lemma_run_task_in_order(rt, device, task);
        },
        PreparedOpView::Composite(ops) => {
            lemma_run_list_in_order(rt, device, ops, ops.len() as int);
        },
    }
}

/// The parts of a composite are in order, however many of them are run.
pub proof fn lemma_run_list_in_order(
    rt: Runtime,
    device: DeviceState,
    ops: Seq<PreparedOpView>,
    n: int,
)
    requires
        in_step(rt, device),
    ensures
        ({
            let o = run_list(rt, ops, n);
            &&& device.accepts_all(o.commands)
            &&& in_step(o.state, device.run(o.commands))
        }),
    decreases ops, n,
{
    if n <= 0 || n > ops.len() {
    } else {
        lemma_run_list_in_order(rt, device, ops, n - 1);
        let before = run_list(rt, ops, n - 1);
        if before.result is Ok {
            let middle = device.run(before.commands);
            lemma_run_op_in_order(before.state, middle, ops[n - 1]);
            let last = run_op(before.state, ops[n - 1]);
            lemma_run_concat(device, before.commands, last.commands);
        }
    }
}

} // verus!
