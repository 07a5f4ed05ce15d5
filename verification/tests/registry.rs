use vknp::ops::validate;
use vknp::{
    DataType, F32Bits, GpuContext, GpuTask, MemoryManager, Op, OpError, OpRegistry, OpSignature,
    PreparedOp, RegisteredOp, Tensor, TensorAnyRef,
};

struct Fixture {
    f: Tensor<F32Bits>,
    g: Tensor<F32Bits>,
    h: Tensor<F32Bits>,
    i: Tensor<i32>,
    u: Tensor<u32>,
}

fn fixture() -> Fixture {
    let mut mm = MemoryManager::new();
    let mut ctx = GpuContext::new();
    let shape = [4];
    Fixture {
        f: Tensor::empty(&mut mm, &mut ctx, &shape, 0).unwrap(),
        g: Tensor::empty(&mut mm, &mut ctx, &shape, 0).unwrap(),
        h: Tensor::empty(&mut mm, &mut ctx, &shape, 0).unwrap(),
        i: Tensor::empty(&mut mm, &mut ctx, &shape, 0).unwrap(),
        u: Tensor::empty(&mut mm, &mut ctx, &shape, 0).unwrap(),
    }
}

fn little_endian() -> bool {
    1u32.to_ne_bytes()[0] == 1
}

fn inventory() -> OpRegistry {
    let mut reg = OpRegistry::new();
    reg.collect_inventory(little_endian());
    reg
}

#[test]
fn registry_and_addop() {
    // setup memory manager
    let mut mm = MemoryManager::new();
    let mut ctx = GpuContext::new();

    // register all available ops
    let mut reg = OpRegistry::new();
    reg.collect_inventory(little_endian());

    // prepare with three f32 tensors
    let shape = [4];
    let t1 = Tensor::<F32Bits>::empty(&mut mm, &mut ctx, &shape, 0).unwrap();
    let t2 = Tensor::<F32Bits>::empty(&mut mm, &mut ctx, &shape, 0).unwrap();
    let t3 = Tensor::<F32Bits>::empty(&mut mm, &mut ctx, &shape, 0).unwrap();

    let inputs = vec![TensorAnyRef::F32(&t1), TensorAnyRef::F32(&t2)];
    let outputs = vec![TensorAnyRef::F32(&t3)];

    // check and prepare the "add" op
    let prepared = reg.check_and_prepare("add", inputs, outputs).unwrap();
    match prepared {
        PreparedOp::Gpu(task) => {
            // should have one output descriptor
            assert_eq!(task.output_descs.len(), 1);
            assert_eq!(task.entry_point, "add_kernel");
        }
        _ => panic!("AddOp should produce a single GpuTask"),
    }

    // requesting unknown op errors
    let err = reg
        .check_and_prepare("extremely_strange_op", vec![], vec![])
        .unwrap_err();
    match err {
        OpError::UnknownOp(name) => assert_eq!(name, "extremely_strange_op"),
        _ => panic!("expected UnknownOp"),
    }
}

#[test]
fn unknown_op_carries_the_requested_name() {
    let reg = inventory();
    match reg.check_and_prepare("nonexistent", vec![], vec![]) {
        Err(OpError::UnknownOp(name)) => assert_eq!(name, "nonexistent"),
        other => panic!("expected UnknownOp, got {:?}", other),
    }
    let empty = OpRegistry::new();
    match empty.check_and_prepare("add", vec![], vec![]) {
        Err(OpError::UnknownOp(name)) => assert_eq!(name, "add"),
        other => panic!("expected UnknownOp, got {:?}", other),
    }
}

#[test]
fn wrong_number_of_inputs_is_an_arity_mismatch() {
    let x = fixture();
    let reg = inventory();
    let r = reg.check_and_prepare("add", vec![TensorAnyRef::F32(&x.f)], vec![TensorAnyRef::F32(&x.h)]);
    match r {
        Err(OpError::ArityMismatch { op, expected, found }) => {
            assert_eq!(op, "add");
            assert_eq!(expected, 2);
            assert_eq!(found, 1);
        }
        other => panic!("expected ArityMismatch, got {:?}", other),
    }
}

#[test]
fn wrong_number_of_outputs_is_an_arity_mismatch() {
    let x = fixture();
    let reg = inventory();
    let r = reg.check_and_prepare(
        "add",
        vec![TensorAnyRef::F32(&x.f), TensorAnyRef::F32(&x.g)],
        vec![],
    );
    match r {
        Err(OpError::ArityMismatch { op, expected, found }) => {
            assert_eq!(op, "add");
            assert_eq!(expected, 1);
            assert_eq!(found, 0);
        }
        other => panic!("expected ArityMismatch, got {:?}", other),
    }
}

#[test]
fn arity_is_reported_even_where_types_mismatch_too() {
    let x = fixture();
    let reg = inventory();
    // one input too many, and none of the right type
    let r = reg.check_and_prepare(
        "add",
        vec![TensorAnyRef::I32(&x.i), TensorAnyRef::U32(&x.u), TensorAnyRef::I32(&x.i)],
        vec![TensorAnyRef::U32(&x.u)],
    );
    assert!(matches!(r, Err(OpError::ArityMismatch { expected: 2, found: 3, .. })));
    // inputs of the wrong type, and an output too many
    let r = reg.check_and_prepare(
        "add",
        vec![TensorAnyRef::I32(&x.i), TensorAnyRef::I32(&x.i)],
        vec![TensorAnyRef::F32(&x.h), TensorAnyRef::F32(&x.h)],
    );
    assert!(matches!(r, Err(OpError::ArityMismatch { expected: 1, found: 2, .. })));
}

#[test]
fn wrong_type_is_reported_with_its_slot() {
    let x = fixture();
    let reg = inventory();
    let r = reg.check_and_prepare(
        "add",
        vec![TensorAnyRef::F32(&x.f), TensorAnyRef::I32(&x.i)],
        vec![TensorAnyRef::F32(&x.h)],
    );
    match r {
        Err(OpError::DtypeMismatch { op, index, expected, found }) => {
            assert_eq!(op, "add");
            assert_eq!(index, 1);
            assert_eq!(expected, vec![DataType::F32]);
            assert_eq!(found, DataType::I32);
        }
        other => panic!("expected DtypeMismatch, got {:?}", other),
    }
}

#[test]
fn the_first_wrong_slot_is_the_one_reported() {
    let x = fixture();
    let reg = inventory();
    let r = reg.check_and_prepare(
        "add",
        vec![TensorAnyRef::U32(&x.u), TensorAnyRef::I32(&x.i)],
        vec![TensorAnyRef::I32(&x.i)],
    );
    assert!(matches!(
        r,
        Err(OpError::DtypeMismatch { index: 0, found: DataType::U32, .. })
    ));
}

#[test]
fn a_wrong_output_type_is_reported_after_the_inputs() {
    let x = fixture();
    let reg = inventory();
    let r = reg.check_and_prepare(
        "add",
        vec![TensorAnyRef::F32(&x.f), TensorAnyRef::F32(&x.g)],
        vec![TensorAnyRef::U32(&x.u)],
    );
    match r {
        Err(OpError::DtypeMismatch { index, expected, found, .. }) => {
            assert_eq!(index, 0);
            assert_eq!(expected, vec![DataType::F32]);
            assert_eq!(found, DataType::U32);
        }
        other => panic!("expected DtypeMismatch, got {:?}", other),
    }
}

#[test]
fn validate_checks_both_arities_before_any_type() {
    let sig = OpSignature {
        name: "pair",
        num_inputs: 1,
        num_outputs: 2,
        input_dtypes: vec![vec![DataType::I32, DataType::U32]],
        output_dtypes: vec![vec![DataType::I32], vec![DataType::U32]],
    };
    assert!(validate(&sig, "pair", &[DataType::U32], &[DataType::I32, DataType::U32]).is_ok());
    assert!(validate(&sig, "pair", &[DataType::I32], &[DataType::I32, DataType::U32]).is_ok());
    assert!(matches!(
        validate(&sig, "pair", &[DataType::F32], &[DataType::I32]),
        Err(OpError::ArityMismatch { expected: 2, found: 1, .. })
    ));
    assert!(matches!(
        validate(&sig, "pair", &[DataType::F32], &[DataType::I32, DataType::I32]),
        Err(OpError::DtypeMismatch { index: 0, found: DataType::F32, .. })
    ));
    assert!(matches!(
        validate(&sig, "pair", &[DataType::I32], &[DataType::I32, DataType::I32]),
        Err(OpError::DtypeMismatch { index: 1, found: DataType::I32, .. })
    ));
}

#[test]
fn a_slot_without_a_declared_set_allows_nothing() {
    let sig = OpSignature {
        name: "short",
        num_inputs: 2,
        num_outputs: 0,
        input_dtypes: vec![vec![DataType::F32]],
        output_dtypes: vec![],
    };
    match validate(&sig, "short", &[DataType::F32, DataType::F32], &[]) {
        Err(OpError::DtypeMismatch { index, expected, found, .. }) => {
            assert_eq!(index, 1);
            assert_eq!(expected, Vec::<DataType>::new());
            assert_eq!(found, DataType::F32);
        }
        other => panic!("expected DtypeMismatch, got {:?}", other),
    }
}

#[test]
fn add_describes_one_dispatch_over_the_output() {
    let mut mm = MemoryManager::new();
    let mut ctx = GpuContext::new();
    let a = Tensor::<F32Bits>::empty(&mut mm, &mut ctx, &[4], 0).unwrap();
    let b = Tensor::<F32Bits>::empty(&mut mm, &mut ctx, &[1, 4], 0).unwrap();
    let c = Tensor::<F32Bits>::empty(&mut mm, &mut ctx, &[4], 0).unwrap();
    let reg = inventory();
    let prepared = reg
        .check_and_prepare("add", vec![(&a).into(), (&b).into()], vec![(&c).into()])
        .unwrap();
    let task: GpuTask = match prepared {
        PreparedOp::Gpu(task) => task,
        PreparedOp::Composite(_) => panic!("add is a single dispatch"),
    };
    assert_eq!(task.input_ids, vec![a.buffer_id(), b.buffer_id()]);
    assert_eq!(task.output_ids, vec![c.buffer_id()]);
    assert_eq!(task.input_descs, vec![*a.view(), *b.view()]);
    assert_eq!(task.output_descs, vec![*c.view()]);
    assert_eq!(task.input_types, vec![DataType::F32, DataType::F32]);
    assert_eq!(task.output_types, vec![DataType::F32]);
    assert_eq!(task.output_descs[0].total_elems(), Some(4));
    assert!(task.pipeline_source.contains("fn add_kernel"));
    assert_eq!(task.params.len(), 1);
    // 68 words: three views of 20 words, the count, and padding
    assert_eq!(task.params[0].bytes.len(), 272);
    let words: Vec<u32> = task.params[0]
        .bytes
        .chunks(4)
        .map(|c| u32::from_ne_bytes([c[0], c[1], c[2], c[3]]))
        .collect();
    // view of a
    assert_eq!(&words[0..5], &[0, 1, 0, 0, 4]);
    assert_eq!(words[12], 1);
    // view of b: shape [1, 4], strides [4, 1]
    assert_eq!(&words[20..26], &[0, 2, 0, 0, 1, 4]);
    assert_eq!(&words[32..34], &[4, 1]);
    // view of c
    assert_eq!(&words[40..45], &[0, 1, 0, 0, 4]);
    // the count and the padding
    assert_eq!(&words[60..68], &[4, 0, 0, 0, 0, 0, 0, 0]);
}

struct Doubler {
    sig: OpSignature,
}

impl Op for Doubler {
    fn sig(&self) -> vknp::ops::OpSignatureView {
        unreachable!()
    }

    fn prepares(
        &self,
        _inputs: vstd::seq::Seq<TensorAnyRef<'_>>,
        _outputs: vstd::seq::Seq<TensorAnyRef<'_>>,
        _work: vknp::ops::PreparedOpView,
    ) -> bool {
        unreachable!()
    }

    fn signature(&self) -> &OpSignature {
        &self.sig
    }

    fn prepare(&self, inputs: &[TensorAnyRef<'_>], outputs: &[TensorAnyRef<'_>]) -> PreparedOp {
        let first = GpuTask {
            pipeline_source: "double".to_string(),
            entry_point: "main".to_string(),
            input_descs: vec![*inputs[0].view()],
            output_descs: vec![*outputs[0].view()],
            input_types: vec![inputs[0].dtype()],
            output_types: vec![outputs[0].dtype()],
            input_ids: vec![inputs[0].buffer_id()],
            output_ids: vec![outputs[0].buffer_id()],
            params: vec![],
        };
        PreparedOp::Composite(vec![PreparedOp::Gpu(first)])
    }

    fn shader_template(&self) -> (&'static str, &'static str) {
        ("double", "main")
    }
}

fn doubler(name: &'static str) -> Doubler {
    Doubler {
        sig: OpSignature {
            name,
            num_inputs: 1,
            num_outputs: 1,
            input_dtypes: vec![vec![DataType::I32, DataType::U32]],
            output_dtypes: vec![vec![DataType::I32, DataType::U32]],
        },
    }
}

#[test]
fn a_registered_operation_is_found_under_its_name() {
    let x = fixture();
    let mut reg = inventory();
    reg.register(Box::new(doubler("double")));
    assert!(matches!(reg.get("double"), Some(RegisteredOp::Custom(_))));
    assert!(matches!(reg.get("add"), Some(RegisteredOp::Add(_))));
    assert!(reg.get("triple").is_none());
    assert_eq!(reg.get("double").unwrap().signature().num_inputs, 1);
    assert_eq!(reg.get("double").unwrap().shader_template(), ("double", "main"));
    let r = reg
        .check_and_prepare("double", vec![TensorAnyRef::U32(&x.u)], vec![TensorAnyRef::I32(&x.i)])
        .unwrap();
    match r {
        PreparedOp::Composite(parts) => assert_eq!(parts.len(), 1),
        PreparedOp::Gpu(_) => panic!("the doubler prepares a composite"),
    }
    let r = reg.check_and_prepare(
        "double",
        vec![TensorAnyRef::F32(&x.f)],
        vec![TensorAnyRef::I32(&x.i)],
    );
    assert!(matches!(r, Err(OpError::DtypeMismatch { index: 0, found: DataType::F32, .. })));
}

#[test]
fn a_later_registration_replaces_an_earlier_one() {
    let x = fixture();
    let mut reg = inventory();
    reg.register_boxed("add", Box::new(doubler("add")));
    assert!(matches!(reg.get("add"), Some(RegisteredOp::Custom(_))));
    let r = reg.check_and_prepare(
        "add",
        vec![TensorAnyRef::F32(&x.f), TensorAnyRef::F32(&x.g)],
        vec![TensorAnyRef::F32(&x.h)],
    );
    assert!(matches!(r, Err(OpError::ArityMismatch { expected: 1, found: 2, .. })));
    reg.collect_inventory(little_endian());
    assert!(matches!(reg.get("add"), Some(RegisteredOp::Add(_))));
}
