use rust_toylock::CMS_lock::{CmsLock, Enqueued, LockGuard, Queued, Waiter};
use rust_toylock::{Guard, Lock};

enum Phase {
    Idle,
    Linking(Waiter),
    Waiting(Queued),
    Inside(LockGuard, u64),
    Releasing(LockGuard),
}

fn run(threads: usize, rounds: usize) -> (CmsLock<u64>, usize, usize) {
    let mut lock = CmsLock::new(0u64);
    let mut phases: Vec<Option<Phase>> = (0..threads).map(|_| Some(Phase::Idle)).collect();
    let mut left = vec![rounds; threads];
    let mut inside = 0usize;
    let mut most = 0usize;
    let mut retries = 0usize;
    let mut done = 0usize;
    while done < threads {
        for t in 0..threads {
            let next = match phases[t].take().unwrap() {
                Phase::Idle => {
                    if left[t] == 0 {
                        Phase::Idle
                    } else {
                        match lock.enqueue() {
                            Enqueued::Acquired(g) => {
                                inside += 1;
                                most = most.max(inside);
                                let seen = *lock.read(&g);
                                Phase::Inside(g, seen)
                            }
                            Enqueued::Waiting(w) => Phase::Linking(w),
                        }
                    }
                }
                Phase::Linking(w) => Phase::Waiting(lock.link(w)),
                Phase::Waiting(q) => match lock.poll(q) {
                    Ok(g) => {
                        inside += 1;
                        most = most.max(inside);
                        let seen = *lock.read(&g);
                        Phase::Inside(g, seen)
                    }
                    Err(q) => Phase::Waiting(q),
                },
                Phase::Inside(g, seen) => {
                    lock.write(&g, seen + 1);
                    inside -= 1;
                    Phase::Releasing(g)
                }
                Phase::Releasing(g) => match g.unlock(&mut lock) {
                    Some(g) => {
                        retries += 1;
                        Phase::Releasing(g)
                    }
                    None => {
                        left[t] -= 1;
                        if left[t] == 0 {
                            done += 1;
                        }
                        Phase::Idle
                    }
                },
            };
            phases[t] = Some(next);
        }
    }
    (lock, most, retries)
}

#[test]
fn cms_no_lost_updates() {
    let (mut lock, most, _) = run(8, 1000);
    assert_eq!(most, 1);
    let g = lock.lock();
    assert_eq!(*lock.read(&g), 8000);
}

#[test]
fn cms_nodes_are_freed() {
    let (lock, _, _) = run(4, 25);
    assert_eq!(lock.live_nodes(), 0);
}

#[test]
fn cms_fast_path_writes_no_link() {
    let mut lock = CmsLock::new(5i32);
    let g = match lock.enqueue() {
        Enqueued::Acquired(g) => g,
        Enqueued::Waiting(_) => panic!("an empty queue must grant at once"),
    };
    assert_eq!(*lock.read(&g), 5);
    assert_eq!(lock.live_nodes(), 1);
    assert!(g.unlock(&mut lock).is_none());
    assert_eq!(lock.live_nodes(), 0);
}

#[test]
fn cms_release_before_link_retries_then_hands_off() {
    let mut lock = CmsLock::new(0i32);
    let g = lock.lock();
    let w = match lock.enqueue() {
        Enqueued::Waiting(w) => w,
        Enqueued::Acquired(_) => panic!("granted while held"),
    };
    // the successor holds the tail but has not linked: release must wait
    let g = g.unlock(&mut lock).expect("release cannot finish before the link");
    assert_eq!(lock.live_nodes(), 2);
    let q = lock.link(w);
    assert!(g.unlock(&mut lock).is_none());
    assert_eq!(lock.live_nodes(), 1);
    let g = lock.poll(q).ok().unwrap();
    assert!(g.unlock(&mut lock).is_none());
    assert_eq!(lock.live_nodes(), 0);
}

#[test]
fn cms_release_without_successor_empties_tail() {
    let mut lock = CmsLock::new(0i32);
    let g = lock.lock();
    assert!(g.unlock(&mut lock).is_none());
    // a newcomer finds the queue empty again
    assert!(matches!(lock.enqueue(), Enqueued::Acquired(_)));
}

#[test]
fn cms_admits_in_tail_order() {
    let mut lock = CmsLock::new(Vec::<usize>::new());
    let first = lock.lock();
    let mut queued: Vec<Option<Queued>> = (0..4)
        .map(|_| match lock.enqueue() {
            Enqueued::Waiting(w) => Some(lock.link(w)),
            Enqueued::Acquired(_) => panic!("granted while held"),
        })
        .collect();
    for t in 0..4 {
        if let Some(q) = queued[t].take() {
            match lock.poll(q) {
                Ok(_) => panic!("admitted while held"),
                Err(q) => queued[t] = Some(q),
            }
        }
    }
    assert!(first.unlock(&mut lock).is_none());
    let mut admitted = 0;
    while admitted < 4 {
        for t in (0..4).rev() {
            if let Some(q) = queued[t].take() {
                match lock.poll(q) {
                    Ok(g) => {
                        let mut v = lock.read(&g).clone();
                        v.push(t);
                        lock.write(&g, v);
                        assert!(g.unlock(&mut lock).is_none());
                        admitted += 1;
                    }
                    Err(q) => queued[t] = Some(q),
                }
            }
        }
    }
    let g = Lock::lock(&mut lock);
    assert_eq!(*Lock::read(&lock, &g), vec![0, 1, 2, 3]);
    Guard::unlock(g, &mut lock);
    assert_eq!(lock.live_nodes(), 0);
}

#[test]
fn cms_slots_are_reused() {
    let mut lock = CmsLock::new(0u32);
    for _ in 0..100 {
        let g = lock.lock();
        assert!(g.unlock(&mut lock).is_none());
    }
    assert_eq!(lock.slot_count(), 1);
    let (lock, _, _) = run(4, 25);
    assert!(lock.slot_count() <= 4);
    assert_eq!(lock.live_nodes(), 0);
}
