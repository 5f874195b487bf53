use joque::Joque;
use loom::sync::Arc;
use loom::thread;

#[test]
fn permute_interleaved_modification() {
    let thread_count: i64 = 4;
    let width: u32 = 25;
    let left_start: i64 = (width / 2) as i64;
    loom::model(move || {
        let deque = Arc::new(Joque::new(width));

        let ths: Vec<_> = (0..thread_count)
            .map(|idx| {
                let big_deque = deque.clone();
                thread::spawn(move || {
                    let _ = big_deque.push_front(Box::new(idx));
                    big_deque.pop_front();
                    let _ = big_deque.push_front(Box::new(idx + 1));
                    let _ = big_deque.push_front(Box::new(idx + 2));
                })
            })
            .collect();

        for th in ths {
            th.join().unwrap();
        }

        assert_eq!(left_start - thread_count * 2, deque.extent().0);
    });
}

fn left_end_round(thread_count: u32, width: u32) {
    let left_start: i64 = (width / 2) as i64;
    loom::model(move || {
        let deque = Arc::new(Joque::new(width));

        let mut ths: Vec<_> = (0..thread_count / 2)
            .map(|idx| {
                let big_deque = deque.clone();
                thread::spawn(move || {
                    let _ = big_deque.push_front(Box::new(idx));
                    let _ = big_deque.pop_front().is_none();
                    let _ = big_deque.push_front(Box::new(idx + 1));
                    let _ = big_deque.push_front(Box::new(idx + 2));
                })
            })
            .collect();

        ths.append(
            &mut (0..thread_count / 2)
                .map(|idx| {
                    let big_deque = deque.clone();
                    thread::spawn(move || {
                        let _ = big_deque.push_front(Box::new(idx));
                        let _ = big_deque.push_front(Box::new(idx + 1));
                        let _ = big_deque.pop_front().is_none();
                        let _ = big_deque.push_front(Box::new(idx + 2));
                    })
                })
                .collect(),
        );

        for th in ths {
            th.join().unwrap();
        }
        assert!(left_start - (thread_count as i64) * 2 >= deque.extent().0);
    });
}

fn right_end_round(thread_count: u32, width: u32, right_start: i64) {
    loom::model(move || {
        let deque = Arc::new(Joque::new(width));

        let mut ths: Vec<_> = (0..thread_count / 2)
            .map(|idx| {
                let big_deque = deque.clone();
                thread::spawn(move || {
                    let _ = big_deque.push_back(Box::new(idx));
                    let out = big_deque.pop_back().is_none() as i32;
                    let _ = big_deque.push_back(Box::new(idx + 1));
                    let _ = big_deque.push_back(Box::new(idx + 2));
                    out
                })
            })
            .collect();

        ths.append(
            &mut (0..thread_count / 2)
                .map(|idx| {
                    let big_deque = deque.clone();
                    thread::spawn(move || {
                        let _ = big_deque.push_back(Box::new(idx));
                        let _ = big_deque.push_back(Box::new(idx + 1));
                        let out = big_deque.pop_back().is_none() as i32;
                        let _ = big_deque.push_back(Box::new(idx + 2));
                        out
                    })
                })
                .collect(),
        );

        let _weirdness_score = ths.into_iter().map(|th| th.join().unwrap()).sum::<i32>();
        assert!(right_start + (thread_count as i64) * 2 <= deque.extent().1);
    });
}

#[test]
fn interleaved_modification() {
    for _rerun in 0..1000 {
        left_end_round(2, 4096);
    }
}

#[test]
fn interleaved_right_modification() {
    for _rerun in 0..1000 {
        right_end_round(2, 4096, 4096 / 2);
    }
}

#[test]
fn right_end_push_heavy_stress() {
    let thread_count: u32 = 4;
    let width: u32 = 4096;
    let right_start: i64 = (width / 2) as i64 + 1;
    loom::model(move || {
        let deque = Arc::new(Joque::new(width));
        let ths: Vec<_> = (0..thread_count)
            .map(|idx| {
                let big_deque = deque.clone();
                thread::spawn(move || {
                    let _ = big_deque.push_back(Box::new(idx));
                    let _ = big_deque.push_back(Box::new(idx + 1));
                    let _ = big_deque.pop_back();
                    let _ = big_deque.push_back(Box::new(idx + 2));
                })
            })
            .collect();
        for th in ths {
            th.join().unwrap();
        }
        let pushes: i64 = 3 * thread_count as i64;
        let pops: i64 = thread_count as i64;
        assert!(deque.extent().1 >= right_start + (pushes - pops));
    });
}

#[test]
fn concurrent_pops_deliver_each_payload_at_most_once() {
    loom::model(|| {
        let deque = Arc::new(Joque::new(25));
        for i in 0..6u32 {
            assert!(deque.push_back(Box::new(i)).is_ok());
        }
        let ths: Vec<_> = (0..3u32)
            .map(|idx| {
                let big_deque = deque.clone();
                thread::spawn(move || {
                    let mut got: Vec<u32> = Vec::new();
                    let _ = big_deque.push_front(Box::new(100 + idx));
                    for _ in 0..3 {
                        let popped = if idx % 2 == 0 {
                            big_deque.pop_front()
                        } else {
                            big_deque.pop_back()
                        };
                        if let Some(v) = popped {
                            got.push(*v);
                        }
                    }
                    got
                })
            })
            .collect();
        let mut seen: Vec<u32> = Vec::new();
        for th in ths {
            seen.extend(th.join().unwrap());
        }
        while let Some(v) = deque.pop_front() {
            seen.push(*v);
        }
        seen.sort();
        assert_eq!(vec![0, 1, 2, 3, 4, 5, 100, 101, 102], seen);
    });
}
