use arena::buffer::{BackedBuffer, StoreSync};
use arena::camera::Camera2d;
use arena::clock::SimulationClock;
use arena::fixed::Vec2;

#[test]
fn buffer_growth() {
    // Capacity 4, a batch of 6 pushes: one reallocation, to capacity 6.
    let b: BackedBuffer<u32> = BackedBuffer::with_capacity(4);
    let mut batch = b.batch();
    for v in 0..6u32 {
        batch.push(v);
    }
    let (b, sync) = batch.finish();
    assert_eq!(b.len(), 6);
    assert_eq!(b.reallocs(), 1);
    assert!(b.capacity() >= 6);
    assert_eq!(sync, StoreSync::Reallocate);

    // A following batch that stays within 6 elements reallocates nothing.
    let mut b = b;
    b.clear();
    let mut batch = b.batch();
    for v in 0..6u32 {
        batch.push(v * 10);
    }
    let (b, sync) = batch.finish();
    assert_eq!(b.len(), 6);
    assert_eq!(b.reallocs(), 1);
    assert_eq!(b.capacity(), 6);
    assert_eq!(sync, StoreSync::WriteRange { from: 0 });
}

#[test]
fn clear_semantics() {
    let mut b = BackedBuffer::with_data(vec![1u32, 2, 3]);
    b.clear();
    assert_eq!(b.len(), 0);
    assert_eq!(b.capacity(), 3);
    let mut batch = b.batch();
    batch.push(7);
    batch.push(8);
    let (b, sync) = batch.finish();
    assert_eq!(b.len(), 2);
    // The readable view covers exactly the pushed elements, never stale
    // ones beyond them.
    assert_eq!(b.items().as_slice(), &[7, 8]);
    assert_eq!(sync, StoreSync::WriteRange { from: 0 });
}

#[test]
fn with_data_sizes_exactly() {
    let b = BackedBuffer::with_data(vec![5u64, 6]);
    assert_eq!(b.len(), 2);
    assert_eq!(b.capacity(), 2);
    assert_eq!(b.reallocs(), 0);
    assert_eq!(b.items().as_slice(), &[5, 6]);
}

#[test]
fn update_replaces_one_element() {
    let mut b = BackedBuffer::with_data(vec![1u32, 2, 3]);
    b.update(1, 9);
    assert_eq!(b.items().as_slice(), &[1, 9, 3]);
    assert_eq!(b.capacity(), 3);
}

#[test]
fn batch_appends_after_existing_data() {
    let b = BackedBuffer::with_data(vec![1u32, 2]);
    let mut batch = b.batch();
    batch.push(3);
    let (b, sync) = batch.finish();
    assert_eq!(b.items().as_slice(), &[1, 2, 3]);
    assert_eq!(b.reallocs(), 1);
    assert_eq!(b.capacity(), 3);
    assert_eq!(sync, StoreSync::Reallocate);
}

#[test]
fn clock_accumulates_fixed_steps() {
    let mut c = SimulationClock::new();
    assert_eq!(c.tick_ms, 16);
    assert_eq!(c.advance(40), 2);
    assert_eq!(c.accumulator, 8);
    assert_eq!(c.advance(8), 1);
    assert_eq!(c.accumulator, 0);
    assert_eq!(c.advance(15), 0);
    assert_eq!(c.accumulator, 15);
    assert_eq!(c.advance(1), 1);
    assert_eq!(c.accumulator, 0);
}

#[test]
fn clock_catches_up_after_slow_frame() {
    let mut c = SimulationClock::new();
    assert_eq!(c.advance(100), 6);
    assert_eq!(c.accumulator, 4);
}

#[test]
fn camera_bounds_and_view() {
    let cam = Camera2d::new(400_000, 300_000, Vec2 { x: 10_000, y: -5_000 });
    let b = cam.ortho_bounds();
    assert_eq!(b.left, -190_000);
    assert_eq!(b.right, 210_000);
    assert_eq!(b.bottom, -155_000);
    assert_eq!(b.top, 145_000);
    let v = cam.view_offset();
    assert_eq!(v, Vec2 { x: -10_000, y: 5_000 });
}

#[test]
fn camera_negative_extent_flips() {
    let cam = Camera2d::new(800_000, -600_000, Vec2 { x: 200_000, y: 150_000 });
    let b = cam.ortho_bounds();
    assert_eq!(b.left, -200_000);
    assert_eq!(b.right, 600_000);
    assert_eq!(b.bottom, 450_000);
    assert_eq!(b.top, -150_000);
}
