use netcore::connection_pool::{AcquireOutcome, Connection, ConnectionPool};
use netcore::memory_pool::{MemoryPool, WORD_SIZE};

/// Acquire a connection as the blocking facade would: reuse what the pool
/// hands back, or run the factory when a creation slot was reserved.
fn acquire(pool: &mut ConnectionPool, next_fd: &mut i32) -> Option<Connection> {
    match pool.get_connection() {
        AcquireOutcome::Reused(c) => Some(c),
        AcquireOutcome::StartCreate => {
            let fd = *next_fd;
            *next_fd += 1;
            Some(Connection::new(fd))
        }
        AcquireOutcome::Saturated => None,
    }
}

#[test]
fn test_connection_pool_basic() {
    let mut pool = ConnectionPool::new(2);
    let mut next_fd: i32 = 0;

    let conn1 = acquire(&mut pool, &mut next_fd).unwrap();
    assert_eq!(conn1.fd(), 0);

    let conn2 = acquire(&mut pool, &mut next_fd).unwrap();
    assert_eq!(conn2.fd(), 1);

    pool.release_connection(conn1);

    let conn3 = acquire(&mut pool, &mut next_fd).unwrap();
    assert_eq!(conn3.fd(), 0);
}

#[test]
fn test_connection_pool_saturation_and_release() {
    // One-slot pool: a second acquisition reports saturation until the
    // first connection is released, and then reuses exactly it.
    let mut pool = ConnectionPool::new(1);
    let mut next_fd: i32 = 10;

    let conn = acquire(&mut pool, &mut next_fd).unwrap();
    assert_eq!(conn.fd(), 10);

    assert!(matches!(pool.get_connection(), AcquireOutcome::Saturated));

    pool.release_connection(conn);
    let again = acquire(&mut pool, &mut next_fd).unwrap();
    assert_eq!(again.fd(), 10);
}

#[test]
fn test_connection_pool_failed_creation_frees_the_slot() {
    let mut pool = ConnectionPool::new(1);

    // Reserve the only slot, then report that the factory failed.
    assert!(matches!(pool.get_connection(), AcquireOutcome::StartCreate));
    pool.creation_failed();

    // The slot is available again.
    assert!(matches!(pool.get_connection(), AcquireOutcome::StartCreate));
}

#[test]
fn test_connection_pool_fifo_reuse_order() {
    let mut pool = ConnectionPool::new(3);
    let mut next_fd: i32 = 0;
    let a = acquire(&mut pool, &mut next_fd).unwrap();
    let b = acquire(&mut pool, &mut next_fd).unwrap();
    let c = acquire(&mut pool, &mut next_fd).unwrap();

    // Release order is reuse order.
    pool.release_connection(b);
    pool.release_connection(a);
    pool.release_connection(c);
    assert_eq!(acquire(&mut pool, &mut next_fd).unwrap().fd(), 1);
    assert_eq!(acquire(&mut pool, &mut next_fd).unwrap().fd(), 0);
    assert_eq!(acquire(&mut pool, &mut next_fd).unwrap().fd(), 2);
}

#[test]
fn test_memory_pool_basic() {
    let mut pool = MemoryPool::new(64, 10);

    let ptr1 = pool.allocate();
    assert_eq!(ptr1 % WORD_SIZE, 0);

    let ptr2 = pool.allocate();
    assert_eq!(ptr2 % WORD_SIZE, 0);
    assert_ne!(ptr1, ptr2);

    pool.deallocate(ptr1);
    let ptr3 = pool.allocate();
    assert_eq!(ptr1, ptr3);
}

#[test]
fn test_memory_pool_capacity() {
    let initial_blocks = 2;
    let mut pool = MemoryPool::new(32, initial_blocks);

    let mut ptrs = Vec::new();
    for _ in 0..initial_blocks {
        ptrs.push(pool.allocate());
    }

    // The next allocation grows the pool by a fresh chunk.
    let ptr = pool.allocate();
    assert_eq!(ptr % WORD_SIZE, 0);
    for &p in &ptrs {
        assert_ne!(ptr, p);
    }

    for ptr in ptrs {
        pool.deallocate(ptr);
    }
    pool.deallocate(ptr);
}

#[test]
fn test_memory_pool_alignment() {
    let align = std::mem::align_of::<usize>();
    let mut pool = MemoryPool::new(align * 4, 5);

    for _ in 0..10 {
        let ptr = pool.allocate();
        assert_eq!(ptr % align, 0);
        pool.deallocate(ptr);
    }
}

#[test]
fn test_memory_pool_different_sizes() {
    let sizes = [16, 32, 64, 128, 256, 512, 1024];
    for &size in &sizes {
        let mut pool = MemoryPool::new(size, 5);
        let mut ptrs = Vec::new();

        for _ in 0..10 {
            ptrs.push(pool.allocate());
        }

        // No two held blocks overlap.
        for i in 0..ptrs.len() {
            for j in i + 1..ptrs.len() {
                let start1 = ptrs[i];
                let end1 = start1 + size;
                let start2 = ptrs[j];
                let end2 = start2 + size;
                assert!(end1 <= start2 || end2 <= start1);
            }
        }

        for ptr in ptrs {
            pool.deallocate(ptr);
        }
    }
}

#[test]
fn test_memory_pool_reuse() {
    let mut pool = MemoryPool::new(64, 5);
    let mut used_ptrs = Vec::new();
    let mut freed_ptrs = Vec::new();

    for _ in 0..10 {
        used_ptrs.push(pool.allocate());
    }

    for _ in 0..5 {
        if let Some(ptr) = used_ptrs.pop() {
            freed_ptrs.push(ptr);
            pool.deallocate(ptr);
        }
    }

    // Reuse is LIFO: blocks come back most recently freed first.
    for expected_ptr in freed_ptrs.into_iter().rev() {
        let new_ptr = pool.allocate();
        assert_eq!(expected_ptr, new_ptr);
    }

    for ptr in used_ptrs {
        pool.deallocate(ptr);
    }
}

#[test]
fn test_memory_pool_reuse_two_blocks() {
    // The smallest reuse scenario: free one of two held blocks and get
    // exactly it back.
    let mut pool = MemoryPool::new(64, 2);
    let p1 = pool.allocate();
    let p2 = pool.allocate();
    assert_ne!(p1, p2);
    pool.deallocate(p1);
    let p3 = pool.allocate();
    assert_eq!(p1, p3);
}

#[test]
fn test_memory_pool_rounds_small_block_sizes_up() {
    let mut pool = MemoryPool::new(3, 4);
    assert_eq!(pool.block_size(), WORD_SIZE);
    let p = pool.allocate();
    assert_eq!(p % WORD_SIZE, 0);
    pool.deallocate(p);

    let mut odd = MemoryPool::new(20, 1);
    assert_eq!(odd.block_size(), 24);
    let q = odd.allocate();
    assert_eq!(q % WORD_SIZE, 0);
    odd.deallocate(q);
}

#[test]
fn test_memory_pool_bytes_can_be_written_and_read() {
    let mut pool = MemoryPool::new(8, 2);
    let p = pool.allocate();
    pool.write_byte(p, 42);
    assert_eq!(pool.read_byte(p), 42);
    pool.deallocate(p);
}

#[test]
fn test_connection_pool_bound_under_interleaving() {
    // However acquisitions and releases interleave, the number outstanding
    // never exceeds the cap.
    let mut pool = ConnectionPool::new(3);
    let mut next_fd: i32 = 0;
    let mut held = Vec::new();
    for round in 0..50 {
        if round % 3 == 0 {
            if let Some(conn) = held.pop() {
                pool.release_connection(conn);
            }
        } else if let Some(conn) = acquire(&mut pool, &mut next_fd) {
            held.push(conn);
        }
        assert!(pool.outstanding_count() <= 3);
    }
}

#[test]
fn test_memory_pool_growth_yields_distinct_blocks() {
    // Across repeated growth, no block is ever handed out twice while held.
    let mut pool = MemoryPool::new(16, 4);
    let mut seen = std::collections::HashSet::new();
    for _ in 0..250 {
        assert!(seen.insert(pool.allocate()));
    }
}
