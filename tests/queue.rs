use tm4c_core::queue::{AtomicQueue, Empty, Full};

fn queue_of(n: usize) -> AtomicQueue<u8> {
    AtomicQueue::new(vec![None; n])
}

#[test]
fn new_queue_is_empty() {
    let q = queue_of(16);
    assert_eq!(q.capacity(), 16);
    assert_eq!(q.len(), 0);
    assert!(q.is_empty());
    assert!(!q.is_full());
}

#[test]
fn push_then_pop_is_fifo() {
    let mut q = queue_of(4);
    assert_eq!(q.push(7), Ok(()));
    assert_eq!(q.push(8), Ok(()));
    assert_eq!(q.push(9), Ok(()));
    assert_eq!(q.len(), 3);
    assert_eq!(q.pop(), Ok(7));
    assert_eq!(q.pop(), Ok(8));
    assert_eq!(q.pop(), Ok(9));
    assert_eq!(q.pop(), Err(Empty));
}

#[test]
fn push_on_full_is_rejected_and_changes_nothing() {
    let mut q = queue_of(2);
    assert_eq!(q.push(1), Ok(()));
    assert_eq!(q.push(2), Ok(()));
    assert!(q.is_full());
    assert_eq!(q.push(3), Err(Full));
    assert_eq!(q.len(), 2);
    assert_eq!(q.pop(), Ok(1));
    assert_eq!(q.pop(), Ok(2));
    assert_eq!(q.pop(), Err(Empty));
}

#[test]
fn pop_on_empty_is_rejected_and_changes_nothing() {
    let mut q = queue_of(3);
    assert_eq!(q.pop(), Err(Empty));
    assert_eq!(q.len(), 0);
    assert_eq!(q.push(5), Ok(()));
    assert_eq!(q.pop(), Ok(5));
    assert_eq!(q.pop(), Err(Empty));
    assert_eq!(q.push(6), Ok(()));
    assert_eq!(q.pop(), Ok(6));
}

#[test]
fn fill_then_drain_returns_values_in_order() {
    for n in 1..=8usize {
        let mut q = queue_of(n);
        for i in 0..n {
            assert_eq!(q.push(i as u8 * 3), Ok(()));
        }
        assert_eq!(q.push(200), Err(Full));
        for i in 0..n {
            assert_eq!(q.pop(), Ok(i as u8 * 3));
        }
        assert_eq!(q.pop(), Err(Empty));
    }
}

#[test]
fn count_tracks_accepted_pushes_and_pops() {
    let mut q = queue_of(3);
    let mut expected: usize = 0;
    // a fixed mix of pushes (true) and pops (false), with rejections on both ends
    let ops = [
        true, true, true, true, false, true, false, false, false, false, true, false, true,
        true, true, true, false,
    ];
    for (i, push) in ops.iter().enumerate() {
        if *push {
            let r = q.push(i as u8);
            assert_eq!(r.is_ok(), expected < 3);
            if r.is_ok() {
                expected += 1;
            }
        } else {
            let r = q.pop();
            assert_eq!(r.is_ok(), expected > 0);
            if r.is_ok() {
                expected -= 1;
            }
        }
        assert_eq!(q.len(), expected);
        assert!(q.len() <= q.capacity());
    }
}

#[test]
fn cursors_wrap_around_many_times() {
    let mut q = queue_of(3);
    let mut next_in: u32 = 0;
    let mut next_out: u32 = 0;
    for round in 0..1000u32 {
        let pushes = round % 4;
        for _ in 0..pushes {
            if q.push(next_in as u8).is_ok() {
                next_in += 1;
            }
        }
        let pops = (round + 1) % 3;
        for _ in 0..pops {
            match q.pop() {
                Ok(v) => {
                    assert_eq!(v, next_out as u8);
                    next_out += 1;
                }
                Err(Empty) => assert_eq!(next_in, next_out),
            }
        }
        assert_eq!(q.len() as u32, next_in - next_out);
    }
}

#[test]
fn values_are_moved_not_copied() {
    let mut q: AtomicQueue<String> = AtomicQueue::new(vec![None, None]);
    assert_eq!(q.push(String::from("first")), Ok(()));
    assert_eq!(q.push(String::from("second")), Ok(()));
    assert_eq!(q.push(String::from("third")), Err(Full));
    assert_eq!(q.pop(), Ok(String::from("first")));
    assert_eq!(q.push(String::from("fourth")), Ok(()));
    assert_eq!(q.pop(), Ok(String::from("second")));
    assert_eq!(q.pop(), Ok(String::from("fourth")));
    assert_eq!(q.pop(), Err(Empty));
}

#[test]
fn single_slot_queue() {
    let mut q = queue_of(1);
    assert_eq!(q.push(1), Ok(()));
    assert_eq!(q.push(2), Err(Full));
    assert_eq!(q.pop(), Ok(1));
    assert_eq!(q.pop(), Err(Empty));
    assert_eq!(q.push(3), Ok(()));
    assert_eq!(q.pop(), Ok(3));
}
