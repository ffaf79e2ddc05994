use circular_buffer::buffer;
use circular_buffer::{Buffer, FillLevel};

#[test]
fn test() {
    let buffer = Buffer::new(3);

    assert!(buffer.is_empty());
    assert_eq!(buffer.snapshot(), vec![]);

    buffer.push(1);
    assert_eq!(buffer.snapshot(), vec![1]);
    assert!(!buffer.is_empty());

    buffer.push_slice(&[2, 3]);
    assert_eq!(buffer.snapshot(), vec![1, 2, 3]);

    buffer.push_slice(&[4, 5]);
    assert_eq!(buffer.snapshot(), vec![3, 4, 5]);

    buffer.clear();
    assert!(buffer.is_empty());
}

#[test]
fn scenario_capacity_three() {
    let buffer = Buffer::new(3);
    buffer.push(1);
    assert_eq!(buffer.snapshot(), vec![1]);
    assert_eq!(buffer.head(), Some(1));
    buffer.push_slice(&[2, 3]);
    assert_eq!(buffer.snapshot(), vec![1, 2, 3]);
    assert_eq!(buffer.head(), Some(3));
    buffer.push_slice(&[4, 5]);
    assert_eq!(buffer.snapshot(), vec![3, 4, 5]);
    assert_eq!(buffer.head(), Some(5));
    assert_eq!(buffer.len(), 3);
    buffer.clear();
    assert!(buffer.is_empty());
    assert_eq!(buffer.snapshot(), Vec::<i32>::new());
    assert_eq!(buffer.head(), None);
}

#[test]
fn capacity_zero_stays_empty() {
    let buffer: Buffer<u8> = Buffer::new(0);
    assert_eq!(buffer.capacity(), 0);
    buffer.push(7);
    buffer.push_slice(&[1, 2, 3]);
    assert_eq!(buffer.len(), 0);
    assert!(buffer.is_empty());
    assert_eq!(buffer.snapshot(), Vec::<u8>::new());
    assert_eq!(buffer.head(), None);
    assert_eq!(buffer.fill_level(), FillLevel::Empty);
}

#[test]
fn len_is_min_of_pushes_and_capacity() {
    for cap in 1..6usize {
        let buffer = Buffer::new(cap);
        for n in 0..12usize {
            assert_eq!(buffer.len(), n.min(cap));
            buffer.push(n);
        }
    }
}

#[test]
fn snapshot_keeps_last_pushes_in_order() {
    for cap in 1..6usize {
        let buffer = Buffer::new(cap);
        let mut pushed: Vec<usize> = Vec::new();
        for n in 0..12usize {
            buffer.push(n * 10);
            pushed.push(n * 10);
            let keep = pushed.len().min(cap);
            assert_eq!(buffer.snapshot(), pushed[pushed.len() - keep..].to_vec());
        }
    }
}

#[test]
fn head_is_last_of_snapshot() {
    let buffer = Buffer::new(4);
    assert_eq!(buffer.head(), None);
    for n in 0..10u32 {
        buffer.push(n);
        assert_eq!(buffer.head(), buffer.snapshot().last().copied());
    }
}

#[test]
fn clear_empties_any_state() {
    let buffer = Buffer::new(3);
    buffer.push_slice(&[1, 2, 3, 4]);
    buffer.clear();
    assert_eq!(buffer.snapshot(), Vec::<i32>::new());
    assert_eq!(buffer.len(), 0);
    assert_eq!(buffer.fill_level(), FillLevel::Empty);
    buffer.clear();
    assert_eq!(buffer.len(), 0);
    buffer.push(9);
    assert_eq!(buffer.snapshot(), vec![9]);
}

#[test]
fn push_slice_matches_single_pushes() {
    let values = [5, 6, 7, 8, 9, 10, 11];
    for cap in 0..9usize {
        for cut in 0..values.len() {
            let batched = Buffer::new(cap);
            let single = Buffer::new(cap);
            batched.push_slice(&values[..cut]);
            batched.push_slice(&values[cut..]);
            for v in values.iter() {
                single.push(*v);
            }
            assert_eq!(batched.snapshot(), single.snapshot());
            assert_eq!(batched.len(), single.len());
            assert_eq!(batched.head(), single.head());
        }
    }
}

#[test]
fn fill_level_progression() {
    let buffer = Buffer::new(3);
    assert_eq!(buffer.fill_level(), FillLevel::Empty);
    buffer.push(1);
    assert_eq!(buffer.fill_level(), FillLevel::Partial);
    buffer.push(2);
    assert_eq!(buffer.fill_level(), FillLevel::Partial);
    buffer.push(3);
    assert_eq!(buffer.fill_level(), FillLevel::Full);
    for n in 4..10 {
        buffer.push(n);
        assert_eq!(buffer.fill_level(), FillLevel::Full);
    }
}

#[test]
fn clones_share_one_ring() {
    let first = Buffer::new(4);
    let second = first.clone();
    for n in 0..3u64 {
        first.push(n);
        second.push(100 + n);
    }
    assert_eq!(first.len(), 4);
    assert_eq!(second.snapshot(), vec![1, 101, 2, 102]);
    assert_eq!(first.snapshot(), second.snapshot());
    second.clear();
    assert!(first.is_empty());
}

#[test]
fn core_ring_wraps_around() {
    let mut ring = buffer::Buffer::new(2);
    assert_eq!(ring.capacity(), 2);
    ring.push('a');
    assert_eq!(ring.fill_level(), FillLevel::Partial);
    ring.push('b');
    ring.push('c');
    assert_eq!(ring.snapshot(), vec!['b', 'c']);
    assert_eq!(ring.head(), Some('c'));
    ring.push_slice(&['d', 'e', 'f']);
    assert_eq!(ring.snapshot(), vec!['e', 'f']);
    assert_eq!(ring.len(), 2);
    ring.clear();
    assert!(ring.is_empty());
    assert_eq!(ring.head(), None);
}

#[test]
fn heap_values_are_cloned_out() {
    let buffer = Buffer::new(2);
    buffer.push(String::from("x"));
    buffer.push_slice(&[String::from("y"), String::from("z")]);
    assert_eq!(buffer.snapshot(), vec![String::from("y"), String::from("z")]);
    assert_eq!(buffer.head(), Some(String::from("z")));
}

#[test]
fn interleaved_handles_keep_last_pushes() {
    let cap: usize = 5;
    let buffer: Buffer<u64> = Buffer::new(cap);
    let handles: Vec<Buffer<u64>> = (0..3).map(|_| buffer.clone()).collect();
    let mut order: Vec<u64> = Vec::new();
    for m in 0..4u64 {
        for (t, handle) in handles.iter().enumerate() {
            let value = t as u64 * 100 + m;
            handle.push(value);
            order.push(value);
        }
    }
    assert_eq!(buffer.len(), order.len().min(cap));
    assert_eq!(buffer.snapshot(), order[order.len() - cap..].to_vec());
}

#[test]
fn capacity_fixed_across_clones_and_writes() {
    let buffer: Buffer<i64> = Buffer::new(6);
    let other = buffer.clone();
    assert_eq!(buffer.capacity(), 6);
    other.push_slice(&[1, 2, 3, 4, 5, 6, 7, 8]);
    buffer.clear();
    assert_eq!(other.capacity(), 6);
    assert_eq!(buffer.capacity(), 6);
    other.push(-1);
    assert_eq!(buffer.head(), Some(-1));
    assert_eq!(buffer.len(), other.len());
}
