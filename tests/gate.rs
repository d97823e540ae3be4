use whitematter::gate::{Gate, GateError, Pool, PoolKind};

#[test]
fn pool_admits_exactly_capacity_then_refuses() {
    let mut pool = Pool::new(3);
    let outcomes: Vec<bool> = (0..5).map(|_| pool.try_acquire().is_ok()).collect();
    assert_eq!(outcomes, vec![true, true, true, false, false]);
    assert_eq!(pool.in_flight(), 3);
    assert_eq!(pool.try_acquire(), Err(GateError::ResourceExhausted));
    pool.release();
    assert_eq!(pool.in_flight(), 2);
    assert!(pool.try_acquire().is_ok());
}

#[test]
fn zero_capacity_pool_refuses_everything() {
    let mut pool = Pool::new(0);
    assert_eq!(pool.capacity(), 0);
    assert_eq!(pool.try_acquire(), Err(GateError::ResourceExhausted));
}

#[test]
fn gate_pools_are_independent() {
    let mut gate = Gate::new(1, 2);
    assert!(gate.try_acquire(PoolKind::Inference).is_ok());
    assert_eq!(gate.try_acquire(PoolKind::Inference), Err(GateError::ResourceExhausted));
    assert!(gate.try_acquire(PoolKind::Embedding).is_ok());
    assert!(gate.try_acquire(PoolKind::Embedding).is_ok());
    assert_eq!(gate.try_acquire(PoolKind::Embedding), Err(GateError::ResourceExhausted));
    gate.release(PoolKind::Inference);
    assert_eq!(gate.in_flight(PoolKind::Inference), 0);
    assert_eq!(gate.in_flight(PoolKind::Embedding), 2);
}
