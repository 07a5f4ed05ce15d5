use vknp::{
    BufferHandle, BufferId, BufferKind, BufferPool, BufferUsage, DeviceCommand, GpuContext,
    MemoryError, MemoryManager,
};

#[test]
fn test_allocate_and_free() {
    let mut ctx = GpuContext::new();
    let mut mm = MemoryManager::new();
    let id = mm.allocate_raw(&mut ctx, 256).unwrap();
    assert!(mm.get_ref(id).is_some());
    mm.release(&mut ctx, id);
    assert!(mm.get_ref(id).is_none());
}

#[test]
fn test_buffer_pool_allocation() {
    // Allocate a buffer and check if it was created successfully
    // Also check if the size is correct and if it can be retrieved
    let mut ctx = GpuContext::new();
    let usage = BufferKind::Main;
    let mut pool = BufferPool::new(usage);

    let handle = pool.create_buffer(&mut ctx, 1024).expect("Failed to allocate buffer");
    let id = handle.id;
    assert!(pool.get(id).is_some(), "Buffer should be allocated");

    let size = pool.get_buffer_size(id).expect("Buffer size should be available");
    assert_eq!(size, 1024, "Expected buffer size to be 1024 bytes");

    assert_eq!(pool.usage(), usage, "Usage bitmap should match");

    println!("Allocated buffer ID: {:?}", id);
    println!("Buffer size: {}", size);

    // Release the buffer
    pool.release_buffer(&mut ctx, id);
    assert!(pool.get(id).is_none(), "Buffer should be released");
}

#[test]
fn usage_follows_the_class() {
    assert_eq!(
        BufferKind::Main.usage(),
        BufferUsage { storage: true, copy_src: true, copy_dst: true, map_read: false, map_write: false }
    );
    assert_eq!(
        BufferKind::Upload.usage(),
        BufferUsage { storage: false, copy_src: true, copy_dst: false, map_read: false, map_write: true }
    );
    assert_eq!(
        BufferKind::Download.usage(),
        BufferUsage { storage: false, copy_src: false, copy_dst: true, map_read: true, map_write: false }
    );
}

#[test]
fn identifiers_are_fresh_and_never_reused() {
    let mut ctx = GpuContext::new();
    let mut pool = BufferPool::new(BufferKind::Upload);
    let a = pool.create_buffer(&mut ctx, 8).unwrap();
    let b = pool.create_buffer(&mut ctx, 8).unwrap();
    assert_eq!(a, BufferHandle { kind: BufferKind::Upload, id: BufferId(0), size: 8 });
    assert_eq!(b.id, BufferId(1));
    pool.release_buffer(&mut ctx, a.id);
    let c = pool.create_buffer(&mut ctx, 16).unwrap();
    assert_eq!(c.id, BufferId(2));
    assert_eq!(pool.get(a.id), None);
    assert_eq!(pool.get(b.id), Some(b));
    assert_eq!(pool.get_buffer_size(c.id), Some(16));
    assert_eq!(pool.get_buffer_size(BufferId(77)), None);
}

#[test]
fn releasing_an_unknown_identifier_changes_nothing() {
    let mut ctx = GpuContext::new();
    let mut pool = BufferPool::new(BufferKind::Main);
    let a = pool.create_buffer(&mut ctx, 4).unwrap();
    assert_eq!(ctx.pending(), 1);
    pool.release_buffer(&mut ctx, BufferId(5));
    assert_eq!(ctx.pending(), 1);
    pool.release_buffer(&mut ctx, a.id);
    assert_eq!(ctx.pending(), 2);
    pool.release_buffer(&mut ctx, a.id);
    assert_eq!(ctx.pending(), 2);
    assert_eq!(pool.get(a.id), None);
}

#[test]
fn a_buffer_is_live_from_allocation_to_release() {
    let mut ctx = GpuContext::new();
    let mut mm = MemoryManager::new();
    assert_eq!(mm.get_ref(BufferId(0)), None);
    let a = mm.allocate_raw(&mut ctx, 12).unwrap();
    let b = mm.allocate_raw(&mut ctx, 20).unwrap();
    assert_ne!(a, b);
    assert_eq!(mm.get_ref(a), Some(BufferHandle { kind: BufferKind::Main, id: a, size: 12 }));
    mm.write_to_buffer(&mut ctx, b, &[1, 2, 3]).unwrap();
    mm.download_raw(&mut ctx, b).unwrap();
    assert!(mm.get_ref(a).is_some());
    mm.release(&mut ctx, b);
    assert!(mm.get_ref(a).is_some());
    assert!(mm.get_ref(b).is_none());
    mm.release(&mut ctx, a);
    assert!(mm.get_ref(a).is_none());
    let c = mm.allocate_raw(&mut ctx, 12).unwrap();
    assert_ne!(c, a);
    assert_ne!(c, b);
    assert!(mm.get_ref(a).is_none());
}

#[test]
fn an_upload_stages_copies_and_cleans_up() {
    let mut ctx = GpuContext::new();
    let mut mm = MemoryManager::new();
    let dest = mm.allocate_raw(&mut ctx, 8).unwrap();
    ctx.take_commands();
    mm.write_to_buffer(&mut ctx, dest, &[9, 8, 7, 6]).unwrap();
    let target = BufferHandle { kind: BufferKind::Main, id: dest, size: 8 };
    let staging = BufferHandle { kind: BufferKind::Upload, id: BufferId(0), size: 4 };
    let commands = ctx.take_commands();
    assert_eq!(commands.len(), 4);
    assert!(matches!(&commands[0], DeviceCommand::CreateBuffer { buffer } if *buffer == staging));
    assert!(matches!(&commands[1],
        DeviceCommand::WriteBuffer { buffer, data } if *buffer == staging && data == &[9, 8, 7, 6]));
    assert!(matches!(&commands[2],
        DeviceCommand::CopyBuffer { src, dst, size } if *src == staging && *dst == target && *size == 4));
    assert!(matches!(&commands[3], DeviceCommand::DestroyBuffer { buffer } if *buffer == staging));
    // the next transfer gets a staging buffer of its own
    mm.write_to_buffer(&mut ctx, dest, &[1]).unwrap();
    let commands = ctx.take_commands();
    assert!(matches!(&commands[0],
        DeviceCommand::CreateBuffer { buffer } if buffer.id == BufferId(1) && buffer.size == 1));
}

#[test]
fn a_download_stages_copies_reads_and_cleans_up() {
    let mut ctx = GpuContext::new();
    let mut mm = MemoryManager::new();
    let src = mm.allocate_raw(&mut ctx, 24).unwrap();
    ctx.take_commands();
    assert_eq!(mm.download_raw(&mut ctx, src), Ok(24));
    let source = BufferHandle { kind: BufferKind::Main, id: src, size: 24 };
    let staging = BufferHandle { kind: BufferKind::Download, id: BufferId(0), size: 24 };
    let commands = ctx.take_commands();
    assert_eq!(commands.len(), 4);
    assert!(matches!(&commands[0], DeviceCommand::CreateBuffer { buffer } if *buffer == staging));
    assert!(matches!(&commands[1],
        DeviceCommand::CopyBuffer { src, dst, size } if *src == source && *dst == staging && *size == 24));
    assert!(matches!(&commands[2], DeviceCommand::ReadBuffer { buffer } if *buffer == staging));
    assert!(matches!(&commands[3], DeviceCommand::DestroyBuffer { buffer } if *buffer == staging));
}

#[test]
fn a_transfer_on_a_missing_buffer_fails_and_records_nothing() {
    let mut ctx = GpuContext::new();
    let mut mm = MemoryManager::new();
    let id = mm.allocate_raw(&mut ctx, 4).unwrap();
    mm.release(&mut ctx, id);
    ctx.take_commands();
    assert_eq!(
        mm.write_to_buffer(&mut ctx, id, &[1, 2, 3, 4]),
        Err(MemoryError::MissingBuffer { id })
    );
    assert_eq!(mm.download_raw(&mut ctx, id), Err(MemoryError::MissingBuffer { id }));
    assert_eq!(
        mm.download_raw(&mut ctx, BufferId(99)),
        Err(MemoryError::MissingBuffer { id: BufferId(99) })
    );
    assert_eq!(ctx.pending(), 0);
}

#[test]
fn an_upload_larger_than_the_buffer_fails_and_records_nothing() {
    let mut ctx = GpuContext::new();
    let mut mm = MemoryManager::new();
    let id = mm.allocate_raw(&mut ctx, 2).unwrap();
    ctx.take_commands();
    assert_eq!(
        mm.write_to_buffer(&mut ctx, id, &[1, 2, 3]),
        Err(MemoryError::OutOfBounds { id, capacity: 2, requested: 3 })
    );
    assert_eq!(ctx.pending(), 0);
    assert_eq!(mm.write_to_buffer(&mut ctx, id, &[1, 2]), Ok(()));
    assert_eq!(ctx.pending(), 4);
}

#[test]
fn taking_the_commands_empties_the_queue() {
    let mut ctx = GpuContext::new();
    assert_eq!(ctx.pending(), 0);
    let handle = BufferHandle { kind: BufferKind::Main, id: BufferId(3), size: 5 };
    ctx.create_buffer(handle);
    ctx.read_buffer(handle);
    ctx.destroy_buffer(handle);
    assert_eq!(ctx.pending(), 3);
    let taken = ctx.take_commands();
    assert_eq!(taken.len(), 3);
    assert!(matches!(&taken[0], DeviceCommand::CreateBuffer { .. }));
    assert!(matches!(&taken[1], DeviceCommand::ReadBuffer { .. }));
    assert!(matches!(&taken[2], DeviceCommand::DestroyBuffer { .. }));
    assert_eq!(ctx.pending(), 0);
    assert!(ctx.take_commands().is_empty());
}
