use ceaser::buffer::{Buffer, BufferUpdate, BufferUsage, MemoryLocation};
use ceaser::model::Model;

#[test]
fn new_records_capacity_usage_and_location() {
    let b = Buffer::new(128, BufferUsage::Uniform, MemoryLocation::CpuToGpu);
    assert_eq!(b.size_in_bytes, 128);
    assert_eq!(b.usage, BufferUsage::Uniform);
    assert_eq!(b.memory_usage, MemoryLocation::CpuToGpu);
}

#[test]
fn fill_within_capacity_does_not_reallocate() {
    // A buffer of 128 bytes, filled with 64 bytes: no reallocation. Filled
    // next with 256 bytes: reallocated, and the new capacity is exactly 256.
    let mut b = Buffer::new(128, BufferUsage::Uniform, MemoryLocation::CpuToGpu);
    let small = [0u8; 64];
    assert!(!b.fill(&small));
    assert_eq!(b.size_in_bytes, 128);
    let large = [0u8; 256];
    assert!(b.fill(&large));
    assert_eq!(b.size_in_bytes, 256);
    assert_eq!(b.usage, BufferUsage::Uniform);
    assert_eq!(b.memory_usage, MemoryLocation::CpuToGpu);
}

#[test]
fn fill_counts_bytes_not_elements() {
    let mut b = Buffer::new(16, BufferUsage::Storage, MemoryLocation::GpuOnly);
    // Five 4-byte elements need 20 bytes: more than 16, so the buffer grows.
    let data = [0u32; 5];
    assert!(b.fill(&data));
    assert_eq!(b.size_in_bytes, 20);
}

#[test]
fn capacity_is_monotone_across_fills() {
    let mut b = Buffer::new(0, BufferUsage::Vertex, MemoryLocation::CpuToGpu);
    let mut previous = b.size_in_bytes;
    for count in [3usize, 100, 7, 100, 101, 1, 0] {
        let data = vec![0u64; count];
        b.fill(data.as_slice());
        assert!(b.size_in_bytes >= previous);
        previous = b.size_in_bytes;
    }
    // A grown buffer refilled with the same or a smaller payload keeps its
    // capacity.
    assert_eq!(b.size_in_bytes, 101 * 8);
}

#[test]
fn update_vertexbuffer_creates_lazily_then_reuses() {
    let mut m: Model<u32, u64> = Model::new(vec![1, 2, 3], vec![0, 1, 2]);
    let first = m.update_vertexbuffer();
    assert_eq!(first, BufferUpdate { created: true, reallocated: false, bytes: 12 });
    let vb = m.vertexbuffer.as_ref().expect("vertex buffer must exist");
    assert_eq!(vb.size_in_bytes, 12);
    assert_eq!(vb.usage, BufferUsage::Vertex);
    assert_eq!(vb.memory_usage, MemoryLocation::CpuToGpu);
    let second = m.update_vertexbuffer();
    assert_eq!(second, BufferUpdate { created: false, reallocated: false, bytes: 12 });
    m.vertexdata.push(4);
    let third = m.update_vertexbuffer();
    assert_eq!(third, BufferUpdate { created: false, reallocated: true, bytes: 16 });
    assert_eq!(m.vertexbuffer.as_ref().unwrap().size_in_bytes, 16);
}

#[test]
fn update_indexbuffer_sizes_by_u32_entries() {
    let mut m: Model<u32, u64> = Model::new(vec![1, 2, 3], vec![0, 1, 2, 2, 1, 0]);
    let u = m.update_indexbuffer();
    assert_eq!(u, BufferUpdate { created: true, reallocated: false, bytes: 24 });
    let ib = m.indexbuffer.as_ref().expect("index buffer must exist");
    assert_eq!(ib.usage, BufferUsage::Index);
    assert_eq!(ib.size_in_bytes, 24);
}

#[test]
fn update_instancebuffer_uploads_only_the_visible_prefix() {
    let mut m: Model<u32, u64> = Model::new(vec![1], vec![0]);
    // Nothing visible and no buffer yet: nothing is created.
    m.insert(11);
    let none_yet = m.update_instancebuffer();
    assert_eq!(none_yet, BufferUpdate { created: false, reallocated: false, bytes: 0 });
    assert!(m.instancebuffer.is_none());
    // Two visible instances of 8 bytes each: 16 bytes, invisible ones not
    // counted.
    m.insert_visibly(12);
    m.insert_visibly(13);
    let created = m.update_instancebuffer();
    assert_eq!(created, BufferUpdate { created: true, reallocated: false, bytes: 16 });
    let buffer = m.instancebuffer.as_ref().expect("instance buffer must exist");
    assert_eq!(buffer.size_in_bytes, 16);
    assert_eq!(buffer.usage, BufferUsage::Vertex);
    // Hiding one shrinks the upload but never the capacity.
    m.make_invisible(1).unwrap();
    let shrunk = m.update_instancebuffer();
    assert_eq!(shrunk, BufferUpdate { created: false, reallocated: false, bytes: 8 });
    assert_eq!(m.instancebuffer.as_ref().unwrap().size_in_bytes, 16);
}

#[test]
fn draw_requires_buffers_and_a_visible_instance() {
    let mut m: Model<u32, u64> = Model::new(vec![1, 2, 3], vec![0, 1, 2, 2, 1, 0]);
    m.insert_visibly(5);
    m.insert_visibly(6);
    m.insert(7);
    assert_eq!(m.draw(), None);
    m.update_vertexbuffer();
    m.update_indexbuffer();
    m.update_instancebuffer();
    let call = m.draw().expect("all buffers exist and instances are visible");
    assert_eq!(call.index_count, 6);
    assert_eq!(call.instance_count, 2);
    m.make_invisible(0).unwrap();
    m.make_invisible(1).unwrap();
    assert_eq!(m.draw(), None);
}
