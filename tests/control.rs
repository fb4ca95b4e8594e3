use tm4c_core::control::{control_step, prime, Report, LAG};
use tm4c_core::queue::{AtomicQueue, Empty, Full};

#[test]
fn primed_capacity_two_queue_lags_by_two() {
    let mut q: AtomicQueue<u8> = AtomicQueue::new(vec![None; 2]);
    assert_eq!(prime(&mut q), Ok(()));
    assert_eq!(q.len(), LAG);
    let mut counter: u8 = 0;
    assert_eq!(control_step(&mut q, &mut counter), Ok(Report { counter: 0, two_values_ago: 0 }));
    assert_eq!(control_step(&mut q, &mut counter), Ok(Report { counter: 1, two_values_ago: 0 }));
    assert_eq!(control_step(&mut q, &mut counter), Ok(Report { counter: 2, two_values_ago: 0 }));
    assert_eq!(control_step(&mut q, &mut counter), Ok(Report { counter: 3, two_values_ago: 1 }));
    assert_eq!(counter, 4);
    for _ in 0..600 {
        let c = counter;
        let r = control_step(&mut q, &mut counter).unwrap();
        assert_eq!(r.counter, c);
        assert_eq!(r.two_values_ago, c.wrapping_sub(2));
        assert_eq!(counter, c.wrapping_add(1));
    }
}

#[test]
fn counter_wraps_at_256() {
    let mut q: AtomicQueue<u8> = AtomicQueue::new(vec![None; 16]);
    assert_eq!(prime(&mut q), Ok(()));
    let mut counter: u8 = 255;
    assert_eq!(control_step(&mut q, &mut counter), Ok(Report { counter: 255, two_values_ago: 0 }));
    assert_eq!(counter, 0);
    assert_eq!(q.len(), 2);
}

#[test]
fn step_on_empty_queue_fails_and_keeps_counter() {
    let mut q: AtomicQueue<u8> = AtomicQueue::new(vec![None; 4]);
    let mut counter: u8 = 9;
    assert_eq!(control_step(&mut q, &mut counter), Err(Empty));
    assert_eq!(counter, 9);
    assert_eq!(q.len(), 0);
}

#[test]
fn priming_a_single_slot_queue_fails() {
    let mut q: AtomicQueue<u8> = AtomicQueue::new(vec![None; 1]);
    assert_eq!(prime(&mut q), Err(Full));
    assert_eq!(q.len(), 1);
    assert_eq!(q.pop(), Ok(0));
}
