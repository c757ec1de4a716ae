use rust_toylock::spin_lock::SpinLock;
use rust_toylock::{Guard, Lock};

#[test]
fn spin_lock_test() {
    let mut lock = SpinLock::new(0);
    for _ in 0..10 {
        let g = lock.lock();
        let v = *lock.read(&g);
        lock.write(&g, v + 1);
        g.unlock(&mut lock);
    }
    let g = lock.lock();
    assert_eq!(*lock.read(&g), 10);
}

#[test]
fn spin_try_lock_fails_while_held() {
    let mut lock = SpinLock::new('a');
    let g = lock.try_lock().unwrap();
    assert!(lock.try_lock().is_none());
    g.unlock(&mut lock);
    let g = lock.try_lock().unwrap();
    assert_eq!(*lock.read(&g), 'a');
    Guard::unlock(g, &mut lock);
    let g = Lock::lock(&mut lock);
    assert_eq!(*Lock::read(&lock, &g), 'a');
}

#[test]
fn spin_no_lost_updates() {
    let mut lock = SpinLock::new(0u64);
    let mut holding: Vec<Option<(rust_toylock::spin_lock::LockGuard, u64)>> = (0..8).map(|_| None).collect();
    let mut left = vec![1000usize; 8];
    let mut inside = 0usize;
    while left.iter().any(|&n| n > 0) {
        for t in 0..8 {
            match holding[t].take() {
                None => {
                    if left[t] > 0 {
                        if let Some(g) = lock.try_lock() {
                            inside += 1;
                            assert_eq!(inside, 1);
                            let seen = *lock.read(&g);
                            holding[t] = Some((g, seen));
                        }
                    }
                }
                Some((g, seen)) => {
                    lock.write(&g, seen + 1);
                    inside -= 1;
                    g.unlock(&mut lock);
                    left[t] -= 1;
                }
            }
        }
    }
    let g = lock.lock();
    assert_eq!(*lock.read(&g), 8000);
}
