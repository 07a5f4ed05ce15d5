//! A small tensor-compute runtime core.
//!
//! The library decides; a backend performs. Every operation on device
//! memory, every pipeline build and every dispatch is recorded as a
//! [`device::DeviceCommand`] on a [`device::GpuContext`], in the order in
//! which the device has to see it. The bookkeeping around those commands
//! (buffer pools, the kernel cache, the operation registry, the execution
//! engine) is verified against mathematical models of its own state and
//! of the device.
pub mod add;
pub mod bytes;
pub mod device;
pub mod dtype;
pub mod engine;
pub mod kernel;
pub mod memory;
pub mod model;
pub mod ops;
pub mod pool;
pub mod registry;
pub mod safety;
pub mod strides;
pub mod tensor;
pub mod view;

pub use crate::add::AddOp;
pub use crate::device::{
    BindGroupEntry, BufferHandle, BufferKind, BufferUsage, DeviceCommand, DeviceReport,
    GpuContext, KernelId, LayoutEntry,
};
pub use crate::dtype::{DataType, Element, F32Bits};
pub use crate::engine::{ExecError, ExecutionEngine, WORKGROUP_SIZE};
pub use crate::kernel::{KernelError, KernelManager};
pub use crate::memory::MemoryManager;
pub use crate::ops::{
    GpuTask, Op, OpError, OpSignature, ParamBuffer, PreparedOp, RegistrationInfo,
};
pub use crate::pool::{BufferPool, MemoryError};
pub use crate::registry::{OpRegistry, RegisteredOp};
pub use crate::strides::{compute_strides, try_compute_strides};
pub use crate::tensor::{Tensor, TensorAnyRef, TensorError};
pub use crate::view::{BufferId, ViewDescriptor, MAX_DIMS};
