use std::collections::HashMap;

use vknp::bytes::{decode, encode};
use vknp::{
    BufferHandle, BufferId, BufferKind, DataType, DeviceCommand, ExecError, ExecutionEngine,
    F32Bits, GpuContext, GpuTask, KernelError, KernelId, KernelManager, LayoutEntry,
    MemoryManager, OpRegistry, ParamBuffer, PreparedOp, Tensor, TensorError, ViewDescriptor,
    MAX_DIMS, WORKGROUP_SIZE,
};

/// A device in host memory. It performs the commands of a context one by
/// one, and fails the test on any command that a device would reject.
struct Device {
    buffers: HashMap<(BufferKind, BufferId), Vec<u8>>,
    kernels: HashMap<KernelId, (String, Vec<LayoutEntry>)>,
    reads: Vec<Vec<u8>>,
    dispatches: usize,
    builds: usize,
}

fn words(bytes: &[u8]) -> Vec<u32> {
    bytes.chunks(4).map(|c| u32::from_ne_bytes([c[0], c[1], c[2], c[3]])).collect()
}

fn floats(bytes: &[u8]) -> Vec<f32> {
    words(bytes).into_iter().map(f32::from_bits).collect()
}

fn linear_to_offset(i: u32, view: &[u32]) -> u32 {
    let ndim = view[1] as usize;
    let shape = &view[4..12];
    let strides = &view[12..20];
    let mut idx = i;
    let mut off = view[0];
    for d in (0..ndim).rev() {
        let coord = idx % shape[d];
        idx /= shape[d];
        off += coord * strides[d];
    }
    off
}

impl Device {
    fn new() -> Device {
        Device {
            buffers: HashMap::new(),
            kernels: HashMap::new(),
            reads: Vec::new(),
            dispatches: 0,
            builds: 0,
        }
    }

    fn live(&self, buffer: &BufferHandle) -> &Vec<u8> {
        let bytes = self.buffers.get(&(buffer.kind, buffer.id)).expect("the buffer is live");
        assert_eq!(bytes.len(), buffer.size);
        bytes
    }

    fn run(&mut self, ctx: &mut GpuContext) {
        for command in ctx.take_commands() {
            match command {
                DeviceCommand::CreateBuffer { buffer } => {
                    let old = self.buffers.insert((buffer.kind, buffer.id), vec![0xEE; buffer.size]);
                    assert!(old.is_none(), "a new buffer has a new name");
                }
                DeviceCommand::WriteBuffer { buffer, data } => {
                    assert!(buffer.kind.usage().map_write);
                    assert_eq!(self.live(&buffer).len(), data.len());
                    self.buffers.insert((buffer.kind, buffer.id), data);
                }
                DeviceCommand::ReadBuffer { buffer } => {
                    assert!(buffer.kind.usage().map_read);
                    let bytes = self.live(&buffer).clone();
                    self.reads.push(bytes);
                }
                DeviceCommand::CopyBuffer { src, dst, size } => {
                    assert!(src.kind.usage().copy_src);
                    assert!(dst.kind.usage().copy_dst);
                    let size = size as usize;
                    let from = self.live(&src)[..size].to_vec();
                    let mut to = self.live(&dst).clone();
                    to[..size].copy_from_slice(&from);
                    self.buffers.insert((dst.kind, dst.id), to);
                }
                DeviceCommand::DestroyBuffer { buffer } => {
                    self.live(&buffer);
                    self.buffers.remove(&(buffer.kind, buffer.id));
                }
                DeviceCommand::CreatePipeline { kernel, source, entry, layout } => {
                    assert!(source.contains(&format!("fn {}", entry)));
                    for (i, slot) in layout.iter().enumerate() {
                        assert_eq!(slot.binding as usize, i);
                    }
                    let old = self.kernels.insert(kernel, (entry, layout));
                    assert!(old.is_none(), "a new kernel has a new name");
                    self.builds += 1;
                }
                DeviceCommand::Dispatch { kernel, bindings, groups } => {
                    let (entry, layout) = self.kernels.get(&kernel).expect("the kernel is built").clone();
                    assert_eq!(bindings.len(), layout.len());
                    for (i, bound) in bindings.iter().enumerate() {
                        assert_eq!(bound.binding as usize, i);
                        assert!(bound.buffer.kind.usage().storage);
                        self.live(&bound.buffer);
                    }
                    assert_eq!((groups.1, groups.2), (1, 1));
                    assert_eq!(entry, "add_kernel");
                    let a = floats(self.live(&bindings[0].buffer));
                    let b = floats(self.live(&bindings[1].buffer));
                    let meta = words(self.live(&bindings[2].buffer));
                    let mut c = floats(self.live(&bindings[3].buffer));
                    let total = meta[60];
                    assert!(groups.0 as u64 * WORKGROUP_SIZE as u64 >= total as u64);
                    for i in 0..groups.0 * WORKGROUP_SIZE {
                        if i >= total {
                            continue;
                        }
                        let ai = linear_to_offset(i, &meta[0..20]) as usize;
                        let bi = linear_to_offset(i, &meta[20..40]) as usize;
                        let ci = linear_to_offset(i, &meta[40..60]) as usize;
                        c[ci] = a[ai] + b[bi];
                    }
                    let out: Vec<u8> = c.iter().flat_map(|f| f.to_bits().to_ne_bytes()).collect();
                    self.buffers.insert((bindings[3].buffer.kind, bindings[3].buffer.id), out);
                    self.dispatches += 1;
                }
            }
        }
    }

    fn staging_left(&self) -> usize {
        self.buffers.keys().filter(|(kind, _)| *kind != BufferKind::Main).count()
    }
}

fn little_endian() -> bool {
    1u32.to_ne_bytes()[0] == 1
}

fn bits(values: &[f32]) -> Vec<F32Bits> {
    values.iter().map(|f| F32Bits(f.to_bits())).collect()
}

#[test]
fn test_upload_download_roundtrip() {
    let mut ctx = GpuContext::new();
    let mut device = Device::new();
    let mut mm = MemoryManager::new();
    let data = vec![10u32, 20, 30, 40];

    let id = mm.allocate_raw(&mut ctx, data.len() * std::mem::size_of::<u32>()).unwrap();
    mm.write_to_buffer(&mut ctx, id, &encode(&data, little_endian())).unwrap();
    mm.download_raw(&mut ctx, id).unwrap();
    device.run(&mut ctx);
    let back: Vec<u32> = decode(device.reads.last().unwrap(), little_endian());
    assert_eq!(data, back);
    mm.release(&mut ctx, id);
}

#[test]
fn round_trip_for_each_element_type() {
    let mut ctx = GpuContext::new();
    let mut device = Device::new();
    let mut mm = MemoryManager::new();

    let unsigned = vec![0u32, 1, u32::MAX];
    let signed = vec![i32::MIN, -7, 0, 7, i32::MAX];
    let real = bits(&[0.5, -1.25, 3.0e10]);
    let payloads = vec![encode(&unsigned, little_endian()), encode(&signed, little_endian()), encode(&real, little_endian()), Vec::new()];
    for payload in &payloads {
        let id = mm.allocate_raw(&mut ctx, payload.len()).unwrap();
        mm.write_to_buffer(&mut ctx, id, payload).unwrap();
        assert_eq!(mm.download_raw(&mut ctx, id), Ok(payload.len()));
        device.run(&mut ctx);
        assert_eq!(device.reads.last().unwrap(), payload);
        assert_eq!(device.staging_left(), 0);
    }
    assert_eq!(decode::<u32>(&device.reads[0], little_endian()), unsigned);
    assert_eq!(decode::<i32>(&device.reads[1], little_endian()), signed);
    assert_eq!(decode::<F32Bits>(&device.reads[2], little_endian()), real);
}

#[test]
fn a_short_upload_keeps_the_tail_of_the_buffer() {
    let mut ctx = GpuContext::new();
    let mut device = Device::new();
    let mut mm = MemoryManager::new();
    let id = mm.allocate_raw(&mut ctx, 6).unwrap();
    mm.write_to_buffer(&mut ctx, id, &[1, 2, 3, 4, 5, 6]).unwrap();
    mm.write_to_buffer(&mut ctx, id, &[9, 9]).unwrap();
    mm.download_raw(&mut ctx, id).unwrap();
    device.run(&mut ctx);
    assert_eq!(device.reads, vec![vec![9, 9, 3, 4, 5, 6]]);
}

#[test]
fn test_empty_tensor_dtype_and_view() {
    let mut ctx = GpuContext::new();
    let mut mm = MemoryManager::new();

    let shape = [2, 3, 4];
    let t: Tensor<F32Bits> = Tensor::empty(&mut mm, &mut ctx, &shape, 0).unwrap();

    // dtype must be f32
    assert_eq!(t.dtype(), DataType::F32);

    // shape padded to MAX_DIMS
    let mut expect_shape = [0u32; MAX_DIMS];
    for i in 0..shape.len() {
        expect_shape[i] = shape[i] as u32;
    }
    assert_eq!(t.view().shape, expect_shape);

    // strides for [2,3,4] row-major = [12,4,1]
    let mut expect_strides = [0u32; MAX_DIMS];
    expect_strides[..3].copy_from_slice(&[12, 4, 1]);
    assert_eq!(t.view().strides, expect_strides);

    assert_eq!(t.device_id(), 0);
}

#[test]
fn test_from_vec_and_to_vec_preserves_data_and_dtype() {
    let mut ctx = GpuContext::new();
    let mut device = Device::new();
    let mut mm = MemoryManager::new();

    let shape = [2, 2];
    let data = vec![1u32, 2, 3, 4];
    let t = Tensor::from_vec(&mut mm, &mut ctx, &data, &shape, 0, little_endian()).unwrap();

    // data round-trip
    t.to_vec(&mut mm, &mut ctx).unwrap();
    device.run(&mut ctx);
    assert_eq!(decode::<u32>(device.reads.last().unwrap(), little_endian()), data);
    // dtype correct
    assert_eq!(t.dtype(), DataType::U32);

    // view correctness (shape only)
    let mut expect_shape = [0u32; MAX_DIMS];
    for i in 0..shape.len() {
        expect_shape[i] = shape[i] as u32;
    }
    assert_eq!(t.view().shape, expect_shape);
}

#[test]
fn an_empty_tensor_gets_a_buffer_of_its_size() {
    let mut ctx = GpuContext::new();
    let mut mm = MemoryManager::new();
    let t: Tensor<i32> = Tensor::empty(&mut mm, &mut ctx, &[3, 5], 2).unwrap();
    assert_eq!(t.dtype(), DataType::I32);
    assert_eq!(t.device_id(), 2);
    assert_eq!(t.view().ndim, 2);
    assert_eq!(t.view().offset, 0);
    let handle = mm.get_ref(t.buffer_id()).unwrap();
    assert_eq!(handle.size, 60);
    let scalar: Tensor<u32> = Tensor::empty(&mut mm, &mut ctx, &[], 0).unwrap();
    assert_eq!(mm.get_ref(scalar.buffer_id()).unwrap().size, 4);
    assert_ne!(scalar.buffer_id(), t.buffer_id());
    let copy = t;
    assert_eq!(copy.buffer_id(), t.buffer_id());
}

#[test]
fn a_shape_that_no_view_holds_is_turned_down() {
    let mut ctx = GpuContext::new();
    let mut mm = MemoryManager::new();
    let r = Tensor::<u32>::empty(&mut mm, &mut ctx, &[1; 9], 0);
    assert!(matches!(r, Err(TensorError::Unrepresentable)));
    let r = Tensor::<u32>::from_vec(&mut mm, &mut ctx, &[1, 2], &[1; 9], 0, little_endian());
    assert!(matches!(r, Err(TensorError::Unrepresentable)));
    let r = Tensor::<u32>::empty(&mut mm, &mut ctx, &[65536, 65536], 0);
    assert!(matches!(r, Err(TensorError::TooLarge)));
    assert_eq!(ctx.pending(), 0);
    assert!(mm.get_ref(BufferId(0)).is_none());
}

#[test]
fn an_upload_that_does_not_fit_gives_the_buffer_back() {
    let mut ctx = GpuContext::new();
    let mut device = Device::new();
    let mut mm = MemoryManager::new();
    let r = Tensor::<u32>::from_vec(&mut mm, &mut ctx, &[1, 2, 3], &[2], 0, little_endian());
    match r {
        Err(TensorError::Memory { error }) => assert_eq!(
            error,
            vknp::MemoryError::OutOfBounds { id: BufferId(0), capacity: 8, requested: 12 }
        ),
        _ => panic!("expected an upload out of bounds"),
    }
    assert!(mm.get_ref(BufferId(0)).is_none());
    device.run(&mut ctx);
    assert!(device.buffers.is_empty());
}

#[test]
fn compile_and_retrieve() {
    // Create command queue and kernel manager
    let mut ctx = GpuContext::new();
    let mut manager = KernelManager::new();

    // Define kernel source and parameters
    let src = r#"
            @group(0) @binding(0) var<storage, read>  A: array<f32>;
            @group(0) @binding(1) var<storage, read>  B: array<f32>;
            @group(0) @binding(2) var<storage, read_write> C: array<f32>;
            @compute @workgroup_size(64)
            fn add_kernel(@builtin(global_invocation_id) gid: vec3<u32>) {
                let i = gid.x;
                C[i] = A[i] + B[i];
            }
        "#;
    let entry = "add_kernel";
    let t_in = vec![DataType::F32, DataType::F32];
    let t_out = vec![DataType::F32];

    // Compile the kernel
    let pipeline = manager
        .get(&mut ctx, &src, entry, t_in.clone(), t_out.clone(), 0)
        .expect("shader compilation failed");

    // Retrieve and compare
    let pipeline2 = manager
        .get(&mut ctx, &src, entry, t_in.clone(), t_out.clone(), 0)
        .expect("shader compilation failed");

    assert_eq!(pipeline, pipeline2);
    let commands = ctx.take_commands();
    assert_eq!(commands.len(), 1);
    match &commands[0] {
        DeviceCommand::CreatePipeline { kernel, source, entry, layout } => {
            assert_eq!(*kernel, pipeline);
            assert_eq!(source, src);
            assert_eq!(entry, "add_kernel");
            assert_eq!(
                layout,
                &vec![
                    LayoutEntry { binding: 0, read_only: true },
                    LayoutEntry { binding: 1, read_only: true },
                    LayoutEntry { binding: 2, read_only: false },
                ]
            );
        }
        _ => panic!("expected a pipeline build"),
    }
}

#[test]
fn a_different_signature_is_a_different_kernel() {
    let mut ctx = GpuContext::new();
    let mut manager = KernelManager::new();
    let f = DataType::F32;
    let base = manager.get(&mut ctx, "s", "e", vec![f, f], vec![f], 0).unwrap();
    let other_type = manager.get(&mut ctx, "s", "e", vec![f, DataType::I32], vec![f], 0).unwrap();
    let other_out = manager.get(&mut ctx, "s", "e", vec![f, f], vec![DataType::U32], 0).unwrap();
    let other_params = manager.get(&mut ctx, "s", "e", vec![f, f], vec![f], 1).unwrap();
    let other_entry = manager.get(&mut ctx, "s", "e2", vec![f, f], vec![f], 0).unwrap();
    let other_source = manager.get(&mut ctx, "s2", "e", vec![f, f], vec![f], 0).unwrap();
    let shorter = manager.get(&mut ctx, "s", "e", vec![f], vec![f], 0).unwrap();
    let all = [base, other_type, other_out, other_params, other_entry, other_source, shorter];
    for i in 0..all.len() {
        for j in 0..i {
            assert_ne!(all[i], all[j]);
        }
    }
    assert_eq!(ctx.pending(), all.len());
    assert_eq!(manager.get(&mut ctx, "s", "e", vec![f, f], vec![f], 1), Ok(other_params));
    assert_eq!(manager.get(&mut ctx, "s", "e", vec![f, f], vec![f], 0), Ok(base));
    assert_eq!(ctx.pending(), all.len());
}

#[test]
fn parameter_slots_are_read_only_bindings_before_the_outputs() {
    let mut ctx = GpuContext::new();
    let mut manager = KernelManager::new();
    manager.get(&mut ctx, "s", "e", vec![DataType::F32], vec![DataType::F32, DataType::F32], 2).unwrap();
    match &ctx.take_commands()[0] {
        DeviceCommand::CreatePipeline { layout, .. } => {
            let read_only: Vec<bool> = layout.iter().map(|slot| slot.read_only).collect();
            assert_eq!(read_only, vec![true, true, true, false, false]);
        }
        _ => panic!("expected a pipeline build"),
    }
}

#[test]
fn a_kernel_with_too_many_bindings_is_turned_down() {
    let mut ctx = GpuContext::new();
    let mut manager = KernelManager::new();
    let r = manager.get(&mut ctx, "s", "e", vec![DataType::F32], vec![], usize::MAX);
    assert_eq!(r, Err(KernelError::TooManyBindings));
    let r = manager.get(&mut ctx, "s", "e", vec![], vec![DataType::F32], u32::MAX as usize);
    assert_eq!(r, Err(KernelError::TooManyBindings));
    assert_eq!(ctx.pending(), 0);
    let r = manager.get(&mut ctx, "s", "e", vec![], vec![DataType::F32], 1000);
    assert_eq!(r, Ok(KernelId(0)));
    assert_eq!(ctx.pending(), 1);
}

#[test]
fn group_counts_round_up() {
    let ctx = GpuContext::new();
    assert_eq!(ctx.dispatch_size_1d(0, 64), (0, 1, 1));
    assert_eq!(ctx.dispatch_size_1d(1, 64), (1, 1, 1));
    assert_eq!(ctx.dispatch_size_1d(64, 64), (1, 1, 1));
    assert_eq!(ctx.dispatch_size_1d(65, 64), (2, 1, 1));
    assert_eq!(ctx.dispatch_size_1d(4, 64), (1, 1, 1));
    assert_eq!(ctx.dispatch_size_1d(u32::MAX, 64), (67108864, 1, 1));
    assert_eq!(ctx.dispatch_size_1d(u32::MAX, 1), (u32::MAX, 1, 1));
    assert_eq!(ctx.dispatch_size_1d(u32::MAX, u32::MAX), (1, 1, 1));
    assert_eq!(ctx.dispatch_size_1d(10, 3), (4, 1, 1));
}

#[test]
fn layouts_and_bind_groups_number_inputs_first() {
    let ctx = GpuContext::new();
    assert_eq!(ctx.create_storage_layout(0, 0), vec![]);
    assert_eq!(
        ctx.create_storage_layout(1, 2),
        vec![
            LayoutEntry { binding: 0, read_only: true },
            LayoutEntry { binding: 1, read_only: false },
            LayoutEntry { binding: 2, read_only: false },
        ]
    );
    let h = |id: u64| BufferHandle { kind: BufferKind::Main, id: BufferId(id), size: 4 };
    let group = ctx.create_storage_bind_group(&[h(7), h(8)], &[h(9)]);
    let flat: Vec<(u32, u64)> = group.iter().map(|e| (e.binding, e.buffer.id.0)).collect();
    assert_eq!(flat, vec![(0, 7), (1, 8), (2, 9)]);
}

#[test]
fn run_add_op() {
    // --- init device + memory + engine ----------------------------------
    let mut ctx = GpuContext::new();
    let mut device = Device::new();
    let mut mm = MemoryManager::new();

    let mut engine = ExecutionEngine::new();

    // --- tensors -----------------------------------------------------
    let a = Tensor::<F32Bits>::from_vec(&mut mm, &mut ctx, &bits(&[1.0, 2.0, 3.0, 4.0]), &[4], 0, little_endian()).unwrap();
    let b = Tensor::<F32Bits>::from_vec(&mut mm, &mut ctx, &bits(&[5.0, 6.0, 7.0, 8.0]), &[1, 4], 0, little_endian()).unwrap();
    let c = Tensor::<F32Bits>::empty(&mut mm, &mut ctx, &[4], 0).unwrap();

    // --- registry & prepare -----------------------------------------
    let mut reg = OpRegistry::new();
    reg.collect_inventory(little_endian());

    let op = reg
        .check_and_prepare("add", vec![(&a).into(), (&b).into()], vec![(&c).into()])
        .unwrap();

    // --- run ---------------------------------------------------------------
    let out_ids: Vec<BufferId> = match &op {
        PreparedOp::Gpu(task) => task.output_ids.clone(),
        PreparedOp::Composite(_) => unreachable!("test simple"),
    };
    engine.run_prepared(&op, &mut mm, &mut ctx).unwrap();

    // --- check results ------------------------------------------------
    mm.download_raw(&mut ctx, out_ids[0]).unwrap();
    device.run(&mut ctx);
    let result: Vec<f32> = floats(device.reads.last().unwrap());
    assert_eq!(result, vec![6.0, 8.0, 10.0, 12.0]);
}

#[test]
fn add_broadcasts_along_a_stride_of_zero() {
    let mut ctx = GpuContext::new();
    let mut device = Device::new();
    let mut mm = MemoryManager::new();
    let mut engine = ExecutionEngine::new();
    let a = Tensor::<F32Bits>::from_vec(&mut mm, &mut ctx, &bits(&[1.0, 2.0, 3.0, 4.0, 5.0, 6.0]), &[2, 3], 0, little_endian()).unwrap();
    let row = Tensor::<F32Bits>::from_vec(&mut mm, &mut ctx, &bits(&[10.0, 20.0, 30.0]), &[3], 0, little_endian()).unwrap();
    let c = Tensor::<F32Bits>::empty(&mut mm, &mut ctx, &[2, 3], 0).unwrap();
    let reg = {
        let mut reg = OpRegistry::new();
        reg.collect_inventory(little_endian());
        reg
    };
    let op = reg
        .check_and_prepare("add", vec![(&a).into(), (&row).into()], vec![(&c).into()])
        .unwrap();
    // view the row as two rows that are one and the same
    let mut task = match op {
        PreparedOp::Gpu(task) => task,
        PreparedOp::Composite(_) => unreachable!(),
    };
    let mut meta = words(&task.params[0].bytes);
    meta[20 + 1] = 2;
    meta[20 + 4] = 2;
    meta[20 + 5] = 3;
    meta[20 + 12] = 0;
    meta[20 + 13] = 1;
    task.params[0] = ParamBuffer { bytes: vknp::bytes::encode_words(&meta, little_endian()) };
    engine.run_prepared(&PreparedOp::Gpu(task), &mut mm, &mut ctx).unwrap();
    c.to_vec(&mut mm, &mut ctx).unwrap();
    device.run(&mut ctx);
    assert_eq!(
        floats(device.reads.last().unwrap()),
        vec![11.0, 22.0, 33.0, 14.0, 25.0, 36.0]
    );
}

fn task_on(inputs: Vec<BufferId>, outputs: Vec<BufferId>, params: Vec<Vec<u8>>) -> GpuTask {
    let view = ViewDescriptor::contiguous(&[4]).unwrap();
    GpuTask {
        pipeline_source: vknp::add::ADD_WGSL.to_string(),
        entry_point: vknp::add::ADD_ENTRY.to_string(),
        input_descs: inputs.iter().map(|_| view).collect(),
        output_descs: outputs.iter().map(|_| view).collect(),
        input_types: inputs.iter().map(|_| DataType::F32).collect(),
        output_types: outputs.iter().map(|_| DataType::F32).collect(),
        input_ids: inputs,
        output_ids: outputs,
        params: params.into_iter().map(|bytes| ParamBuffer { bytes }).collect(),
    }
}

#[test]
fn a_dispatch_binds_inputs_then_parameters_then_outputs() {
    let mut ctx = GpuContext::new();
    let mut mm = MemoryManager::new();
    let mut engine = ExecutionEngine::new();
    let a = mm.allocate_raw(&mut ctx, 16).unwrap();
    let b = mm.allocate_raw(&mut ctx, 16).unwrap();
    let c = mm.allocate_raw(&mut ctx, 16).unwrap();
    ctx.take_commands();
    let task = task_on(vec![a, b], vec![c], vec![vec![1, 2, 3, 4, 5, 6, 7, 8]]);
    assert_eq!(engine.run_gpu_task(&task, &mut mm, &mut ctx), Ok(()));
    let commands = ctx.take_commands();
    // create the parameter buffer, upload into it (4), build, dispatch, destroy
    assert_eq!(commands.len(), 8);
    let param = BufferId(3);
    assert!(matches!(&commands[0], DeviceCommand::CreateBuffer { buffer }
        if buffer.kind == BufferKind::Main && buffer.id == param && buffer.size == 8));
    assert!(matches!(&commands[2], DeviceCommand::WriteBuffer { data, .. } if data.len() == 8));
    assert!(matches!(&commands[5], DeviceCommand::CreatePipeline { layout, .. } if layout.len() == 4));
    match &commands[6] {
        DeviceCommand::Dispatch { kernel, bindings, groups } => {
            assert_eq!(*kernel, KernelId(0));
            let bound: Vec<(u32, BufferId)> = bindings.iter().map(|e| (e.binding, e.buffer.id)).collect();
            assert_eq!(bound, vec![(0, a), (1, b), (2, param), (3, c)]);
            assert_eq!(*groups, (1, 1, 1));
        }
        _ => panic!("expected the dispatch"),
    }
    assert!(matches!(&commands[7], DeviceCommand::DestroyBuffer { buffer } if buffer.id == param));
    assert!(mm.get_ref(param).is_none());
    // the kernel is cached: a second run builds nothing
    assert_eq!(engine.run_gpu_task(&task, &mut mm, &mut ctx), Ok(()));
    let commands = ctx.take_commands();
    assert_eq!(commands.len(), 7);
    assert!(commands.iter().all(|c| !matches!(c, DeviceCommand::CreatePipeline { .. })));
}

#[test]
fn a_missing_buffer_stops_the_task_and_frees_its_parameters() {
    let mut ctx = GpuContext::new();
    let mut device = Device::new();
    let mut mm = MemoryManager::new();
    let mut engine = ExecutionEngine::new();
    let a = mm.allocate_raw(&mut ctx, 16).unwrap();
    let c = mm.allocate_raw(&mut ctx, 16).unwrap();
    let gone = BufferId(40);
    let task = task_on(vec![a, gone], vec![c], vec![vec![0; 4]]);
    assert_eq!(
        engine.run_gpu_task(&task, &mut mm, &mut ctx),
        Err(ExecError::MissingInput { id: gone })
    );
    let task = task_on(vec![a, a], vec![gone], vec![vec![0; 4], vec![0; 4]]);
    assert_eq!(
        engine.run_gpu_task(&task, &mut mm, &mut ctx),
        Err(ExecError::MissingOutput { id: gone })
    );
    device.run(&mut ctx);
    assert_eq!(device.dispatches, 0);
    assert_eq!(device.buffers.len(), 2);
    assert!(mm.get_ref(a).is_some());
    assert!(mm.get_ref(c).is_some());
}

#[test]
fn a_task_that_does_not_hang_together_is_turned_down() {
    let mut ctx = GpuContext::new();
    let mut mm = MemoryManager::new();
    let mut engine = ExecutionEngine::new();
    let a = mm.allocate_raw(&mut ctx, 16).unwrap();
    ctx.take_commands();
    let mut no_output = task_on(vec![a], vec![], vec![vec![0; 4]]);
    assert_eq!(engine.run_gpu_task(&no_output, &mut mm, &mut ctx), Err(ExecError::InvalidTask));
    no_output.output_ids.push(a);
    assert_eq!(engine.run_gpu_task(&no_output, &mut mm, &mut ctx), Err(ExecError::InvalidTask));
    let mut uneven = task_on(vec![a], vec![a], vec![]);
    uneven.input_types.push(DataType::F32);
    assert_eq!(engine.run_gpu_task(&uneven, &mut mm, &mut ctx), Err(ExecError::InvalidTask));
    let mut huge = task_on(vec![a], vec![a], vec![]);
    huge.output_descs[0].ndim = 2;
    huge.output_descs[0].shape = [65536, 65536, 0, 0, 0, 0, 0, 0];
    assert_eq!(engine.run_gpu_task(&huge, &mut mm, &mut ctx), Err(ExecError::InvalidTask));
    huge.output_descs[0].ndim = 9;
    assert_eq!(engine.run_gpu_task(&huge, &mut mm, &mut ctx), Err(ExecError::InvalidTask));
    assert_eq!(ctx.pending(), 0);
}

#[test]
fn a_composite_runs_in_order_and_stops_at_the_first_failure() {
    let mut ctx = GpuContext::new();
    let mut device = Device::new();
    let mut mm = MemoryManager::new();
    let mut engine = ExecutionEngine::new();
    let ones = encode(&bits(&[1.0, 1.0, 1.0, 1.0]), little_endian());
    let a = mm.allocate_raw(&mut ctx, 16).unwrap();
    let b = mm.allocate_raw(&mut ctx, 16).unwrap();
    mm.write_to_buffer(&mut ctx, a, &ones).unwrap();
    mm.write_to_buffer(&mut ctx, b, &ones).unwrap();
    let view = ViewDescriptor::contiguous(&[4]).unwrap();
    let meta = |total: u32| {
        let mut w = Vec::new();
        for _ in 0..3 {
            w.extend_from_slice(&[view.offset, view.ndim, 0, 0]);
            w.extend_from_slice(&view.shape);
            w.extend_from_slice(&view.strides);
        }
        w.extend_from_slice(&[total, 0, 0, 0, 0, 0, 0, 0]);
        vknp::bytes::encode_words(&w, little_endian())
    };
    // b = a + b, twice over, then a step on a buffer that is gone, then one more
    let step = || PreparedOp::Gpu(task_on(vec![a, b], vec![b], vec![meta(4)]));
    let broken = PreparedOp::Gpu(task_on(vec![a, BufferId(77)], vec![b], vec![meta(4)]));
    let all = PreparedOp::Composite(vec![
        PreparedOp::Composite(vec![step(), step()]),
        PreparedOp::Composite(vec![]),
        broken,
        step(),
    ]);
    assert_eq!(
        engine.run_prepared(&all, &mut mm, &mut ctx),
        Err(ExecError::MissingInput { id: BufferId(77) })
    );
    mm.download_raw(&mut ctx, b).unwrap();
    device.run(&mut ctx);
    assert_eq!(device.dispatches, 2);
    assert_eq!(device.builds, 1);
    assert_eq!(floats(device.reads.last().unwrap()), vec![3.0, 3.0, 3.0, 3.0]);
    assert_eq!(device.buffers.len(), 2);
}

#[test]
fn an_empty_composite_does_nothing() {
    let mut ctx = GpuContext::new();
    let mut mm = MemoryManager::new();
    let mut engine = ExecutionEngine::new();
    assert_eq!(engine.run_prepared(&PreparedOp::Composite(vec![]), &mut mm, &mut ctx), Ok(()));
    assert_eq!(ctx.pending(), 0);
}

#[test]
fn a_missing_buffer_is_reported_before_anything_else_is_looked_at() {
    let mut ctx = GpuContext::new();
    let mut mm = MemoryManager::new();
    let mut engine = ExecutionEngine::new();
    let a = mm.allocate_raw(&mut ctx, 16).unwrap();
    let released = mm.allocate_raw(&mut ctx, 16).unwrap();
    mm.release(&mut ctx, released);
    ctx.take_commands();
    // the counts of identifiers and element types differ, and an input is gone
    let mut task = task_on(vec![a, released], vec![a], vec![vec![0; 4]]);
    task.input_types.push(DataType::F32);
    assert_eq!(
        engine.run_gpu_task(&task, &mut mm, &mut ctx),
        Err(ExecError::MissingInput { id: released })
    );
    // no output view at all, and the output is gone
    let mut task = task_on(vec![a], vec![released], vec![]);
    task.output_descs.clear();
    assert_eq!(
        engine.run_gpu_task(&task, &mut mm, &mut ctx),
        Err(ExecError::MissingOutput { id: released })
    );
    // an input and an output are gone: the input is named
    let task = task_on(vec![released], vec![BufferId(99)], vec![]);
    assert_eq!(
        engine.run_gpu_task(&task, &mut mm, &mut ctx),
        Err(ExecError::MissingInput { id: released })
    );
    // the identifier that the next parameter buffer will get is not live yet
    let next = BufferId(2);
    let task = task_on(vec![a, next], vec![a], vec![vec![0; 4]]);
    assert_eq!(
        engine.run_gpu_task(&task, &mut mm, &mut ctx),
        Err(ExecError::MissingInput { id: next })
    );
    assert_eq!(ctx.pending(), 0);
    assert!(mm.get_ref(a).is_some());
}

#[test]
fn a_failed_build_leaves_no_kernel_in_the_cache() {
    let mut ctx = GpuContext::new();
    let mut manager = KernelManager::new();
    let f = DataType::F32;
    let good = manager.get(&mut ctx, "good", "main", vec![f], vec![f], 0).unwrap();
    let bad = manager.get(&mut ctx, "not a shader", "main", vec![f], vec![f], 0).unwrap();
    assert_eq!(ctx.take_commands().len(), 2);
    assert_eq!(manager.build_failed(bad), KernelError::BuildFailed { kernel: bad });
    // the next request under the key misses, builds again and gets a new name
    let again = manager.get(&mut ctx, "not a shader", "main", vec![f], vec![f], 0).unwrap();
    assert_ne!(again, bad);
    assert_ne!(again, good);
    let commands = ctx.take_commands();
    assert_eq!(commands.len(), 1);
    assert!(matches!(&commands[0],
        DeviceCommand::CreatePipeline { kernel, source, .. } if *kernel == again && source == "not a shader"));
    // the other kernel is still found
    assert_eq!(manager.get(&mut ctx, "good", "main", vec![f], vec![f], 0), Ok(good));
    assert_eq!(ctx.pending(), 0);
    // a report on a kernel that was never named changes nothing
    assert_eq!(
        manager.build_failed(KernelId(77)),
        KernelError::BuildFailed { kernel: KernelId(77) }
    );
    assert_eq!(manager.get(&mut ctx, "not a shader", "main", vec![f], vec![f], 0), Ok(again));
}

#[test]
fn what_the_device_reports_becomes_a_typed_error() {
    let mut ctx = GpuContext::new();
    let mut mm = MemoryManager::new();
    let mut engine = ExecutionEngine::new();
    let id = mm.allocate_raw(&mut ctx, 1 << 20).unwrap();
    let other = mm.allocate_raw(&mut ctx, 8).unwrap();
    let buffer = mm.get_ref(id).unwrap();
    let kept = mm.get_ref(other).unwrap();
    // the device had no memory for the first buffer
    assert_eq!(
        engine.device_reported(&mut mm, vknp::DeviceReport::AllocationRejected { buffer }),
        ExecError::Memory { error: vknp::MemoryError::AllocationFailed { buffer } }
    );
    assert_eq!(mm.get_ref(id), None);
    assert_eq!(mm.get_ref(other), Some(kept));
    assert_eq!(
        mm.write_to_buffer(&mut ctx, id, &[1]),
        Err(vknp::MemoryError::MissingBuffer { id })
    );
    // the identifier is not minted again
    assert_ne!(mm.allocate_raw(&mut ctx, 4), Ok(id));
    // a copy that the device refused changes nothing here
    assert_eq!(
        engine.device_reported(&mut mm, vknp::DeviceReport::CopyRejected { src: kept, dst: kept }),
        ExecError::Memory { error: vknp::MemoryError::CopyFailed { src: kept, dst: kept } }
    );
    assert_eq!(mm.get_ref(other), Some(kept));
    // a build that failed
    let task = task_on(vec![other], vec![other], vec![]);
    assert_eq!(engine.run_gpu_task(&task, &mut mm, &mut ctx), Ok(()));
    let builds = |ctx: &mut GpuContext| {
        ctx.take_commands()
            .iter()
            .filter(|c| matches!(c, DeviceCommand::CreatePipeline { .. }))
            .count()
    };
    assert_eq!(builds(&mut ctx), 1);
    assert_eq!(engine.run_gpu_task(&task, &mut mm, &mut ctx), Ok(()));
    assert_eq!(builds(&mut ctx), 0);
    assert_eq!(
        engine.device_reported(&mut mm, vknp::DeviceReport::BuildFailed { kernel: KernelId(0) }),
        ExecError::Kernel { error: KernelError::BuildFailed { kernel: KernelId(0) } }
    );
    assert_eq!(engine.run_gpu_task(&task, &mut mm, &mut ctx), Ok(()));
    assert_eq!(builds(&mut ctx), 1);
}
