use rust_toylock::ticket_lock::{LockGuard, TicketLock, Waiter};
use rust_toylock::{Guard, Lock};

enum Phase {
    Idle,
    Waiting(Waiter),
    Inside(LockGuard, u64),
}

/// Runs `threads` simulated threads round-robin, each doing `rounds`
/// read-then-write increments inside the lock, split over two steps.
/// Returns the final value, the most threads ever inside at once and the
/// order of admissions.
fn run(threads: usize, rounds: usize) -> (u64, usize, Vec<usize>) {
    let mut lock = TicketLock::new(0u64);
    let mut phases: Vec<Option<Phase>> = (0..threads).map(|_| Some(Phase::Idle)).collect();
    let mut left = vec![rounds; threads];
    let mut inside = 0usize;
    let mut most = 0usize;
    let mut order = Vec::new();
    let mut done = 0usize;
    while done < threads {
        for t in 0..threads {
            let next = match phases[t].take().unwrap() {
                Phase::Idle => {
                    if left[t] == 0 {
                        Phase::Idle
                    } else {
                        Phase::Waiting(lock.take_ticket())
                    }
                }
                Phase::Waiting(w) => match lock.try_enter(w) {
                    Ok(g) => {
                        inside += 1;
                        most = most.max(inside);
                        order.push(t);
                        let seen = *lock.read(&g);
                        Phase::Inside(g, seen)
                    }
                    Err(w) => Phase::Waiting(w),
                },
                Phase::Inside(g, seen) => {
                    lock.write(&g, seen + 1);
                    inside -= 1;
                    g.unlock(&mut lock);
                    left[t] -= 1;
                    if left[t] == 0 {
                        done += 1;
                    }
                    Phase::Idle
                }
            };
            phases[t] = Some(next);
        }
    }
    let g = lock.lock();
    let v = *lock.read(&g);
    (v, most, order)
}

#[test]
fn ticket_lock_test() {
    let mut lock = TicketLock::new(Vec::<i32>::new());
    for x in 1..100 {
        let g = lock.lock();
        let mut v = lock.read(&g).clone();
        v.push(x);
        lock.write(&g, v);
        g.unlock(&mut lock);
    }
    let g = lock.lock();
    assert_eq!(*lock.read(&g), (1..100).collect::<Vec<i32>>());
}

#[test]
fn push_u32_lock() {
    let mut lock = TicketLock::new(Vec::<i32>::new());
    for x in 1..=1000 {
        let g = lock.lock();
        let mut v = lock.read(&g).clone();
        v.push(x);
        lock.write(&g, v);
        g.unlock(&mut lock);
    }
    let g = lock.lock();
    assert_eq!(lock.read(&g).len(), 1000);
    assert_eq!(lock.read(&g)[999], 1000);
}

#[test]
fn ticket_no_lost_updates() {
    let (v, most, _) = run(8, 1000);
    assert_eq!(v, 8000);
    assert_eq!(most, 1);
}

#[test]
fn ticket_admits_in_ticket_order() {
    let mut lock = TicketLock::new(Vec::<usize>::new());
    let mut waiters: Vec<Option<Waiter>> = (0..5).map(|_| Some(lock.take_ticket())).collect();
    let mut admitted = 0;
    while admitted < 5 {
        for t in (0..5).rev() {
            if let Some(w) = waiters[t].take() {
                match lock.try_enter(w) {
                    Ok(g) => {
                        let mut v = lock.read(&g).clone();
                        v.push(t);
                        lock.write(&g, v);
                        g.unlock(&mut lock);
                        admitted += 1;
                    }
                    Err(w) => waiters[t] = Some(w),
                }
            }
        }
    }
    let g = lock.lock();
    assert_eq!(*lock.read(&g), vec![0, 1, 2, 3, 4]);
}

#[test]
fn ticket_later_waiter_is_refused_while_held() {
    let mut lock = TicketLock::new(1u8);
    let g = lock.lock();
    let w = lock.take_ticket();
    let w = match lock.try_enter(w) {
        Ok(_) => panic!("admitted while held"),
        Err(w) => w,
    };
    g.unlock(&mut lock);
    assert!(lock.try_enter(w).is_ok());
}

#[test]
fn ticket_lock_through_traits() {
    let mut lock = TicketLock::new(7u32);
    let g = Lock::lock(&mut lock);
    assert_eq!(*Lock::read(&lock, &g), 7);
    Guard::unlock(g, &mut lock);
    let g = Lock::lock(&mut lock);
    assert_eq!(*Lock::read(&lock, &g), 7);
}

#[test]
fn ticket_pending_counts_outstanding() {
    let mut lock = TicketLock::new(());
    assert_eq!(lock.pending(), 0);
    let g = lock.lock();
    let w = lock.take_ticket();
    assert_eq!(lock.pending(), 2);
    g.unlock(&mut lock);
    assert_eq!(lock.pending(), 1);
    let g = lock.try_enter(w).ok().unwrap();
    g.unlock(&mut lock);
    assert_eq!(lock.pending(), 0);
}
