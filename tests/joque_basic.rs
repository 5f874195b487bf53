use joque::{Joque, PushError};

#[test]
pub fn basic_test() {
    let deque = Joque::new(25);

    assert!(deque.push_front(Box::new("squirpy")).is_ok());
    assert!(deque.push_front(Box::new("squirp")).is_ok());
    assert!(deque.push_front(Box::new("squirp")).is_ok());

    assert_eq!("squirp", *deque.pop_front().unwrap());
    assert_eq!("squirp", *deque.pop_front().unwrap());
    assert_eq!("squirpy", *deque.pop_front().unwrap());
}

#[test]
pub fn basic_test_rev() {
    let deque = Joque::new(25);

    assert!(deque.push_back(Box::new("squirpy")).is_ok());
    assert!(deque.push_back(Box::new("squirp")).is_ok());
    assert!(deque.push_back(Box::new("squirp")).is_ok());

    assert_eq!("squirp", *deque.pop_back().unwrap());
    assert_eq!("squirp", *deque.pop_back().unwrap());
    assert_eq!("squirpy", *deque.pop_back().unwrap());
}

#[test]
pub fn basic_test_cross() {
    let deque = Joque::new(25);

    assert!(deque.push_back(Box::new("squirpy")).is_ok());
    assert!(deque.push_back(Box::new("squirp")).is_ok());
    assert!(deque.push_back(Box::new("squirp")).is_ok());

    assert_eq!("squirpy", *deque.pop_front().unwrap());
    assert_eq!("squirp", *deque.pop_front().unwrap());
    assert_eq!("squirp", *deque.pop_front().unwrap());

    assert!(deque.push_front(Box::new("squirpy")).is_ok());
    assert!(deque.push_front(Box::new("squirp")).is_ok());
    assert!(deque.push_front(Box::new("squirp")).is_ok());

    assert_eq!("squirpy", *deque.pop_back().unwrap());
    assert_eq!("squirp", *deque.pop_back().unwrap());
    assert_eq!("squirp", *deque.pop_back().unwrap());
}

#[test]
pub fn basic_test_cross_rev() {
    let deque = Joque::new(25);

    assert!(deque.push_front(Box::new("squirpy")).is_ok());
    assert!(deque.push_front(Box::new("squirp")).is_ok());
    assert!(deque.push_front(Box::new("squirp")).is_ok());

    assert_eq!("squirpy", *deque.pop_back().unwrap());
    assert_eq!("squirp", *deque.pop_back().unwrap());
    assert_eq!("squirp", *deque.pop_back().unwrap());

    assert!(deque.push_back(Box::new("squirpy")).is_ok());
    assert!(deque.push_back(Box::new("squirp")).is_ok());
    assert!(deque.push_back(Box::new("squirp")).is_ok());

    assert_eq!("squirpy", *deque.pop_front().unwrap());
    assert_eq!("squirp", *deque.pop_front().unwrap());
    assert_eq!("squirp", *deque.pop_front().unwrap());
}

#[test]
pub fn basic_wrap() {
    let deque = Joque::new(25);

    for _i in 0..49 {
        assert!(deque.push_front(Box::new("oogah")).is_ok());
        deque.pop_back();

        assert!(deque.push_front(Box::new("boogah")).is_ok());
        deque.pop_back();
    }
}

#[test]
fn single_thread_front_order() {
    let deque = Joque::new(25);
    assert!(deque.push_front(Box::new("a")).is_ok());
    assert!(deque.push_front(Box::new("b")).is_ok());
    assert!(deque.push_front(Box::new("c")).is_ok());
    assert_eq!("c", *deque.pop_front().unwrap());
    assert_eq!("b", *deque.pop_front().unwrap());
    assert_eq!("a", *deque.pop_front().unwrap());
    assert!(deque.pop_front().is_none());
}

#[test]
fn single_thread_back_order() {
    let deque = Joque::new(25);
    assert!(deque.push_back(Box::new("a")).is_ok());
    assert!(deque.push_back(Box::new("b")).is_ok());
    assert!(deque.push_back(Box::new("c")).is_ok());
    assert_eq!("c", *deque.pop_back().unwrap());
    assert_eq!("b", *deque.pop_back().unwrap());
    assert_eq!("a", *deque.pop_back().unwrap());
    assert!(deque.pop_back().is_none());
}

#[test]
fn cross_end_transit() {
    let deque = Joque::new(25);
    assert!(deque.push_back(Box::new("a")).is_ok());
    assert!(deque.push_back(Box::new("b")).is_ok());
    assert!(deque.push_back(Box::new("c")).is_ok());
    assert_eq!("a", *deque.pop_front().unwrap());
    assert_eq!("b", *deque.pop_front().unwrap());
    assert_eq!("c", *deque.pop_front().unwrap());

    let single = Joque::new(10);
    assert!(single.push_front(Box::new(7u32)).is_ok());
    assert_eq!(7, *single.pop_back().unwrap());
    assert!(single.push_back(Box::new(8u32)).is_ok());
    assert_eq!(8, *single.pop_front().unwrap());
}

#[test]
fn wrap_alternating_delivers_every_payload() {
    let deque = Joque::new(25);
    for i in 0..49u32 {
        assert!(deque.push_front(Box::new(i)).is_ok());
        assert_eq!(i, *deque.pop_back().unwrap());
    }
    assert!(deque.pop_back().is_none());
    assert!(deque.pop_front().is_none());
}

#[test]
fn no_duplication_single_thread() {
    let deque = Joque::new(16);
    let mut pushed: Vec<u32> = Vec::new();
    let mut popped: Vec<u32> = Vec::new();
    for i in 0..40u32 {
        let ok = if i % 2 == 0 {
            deque.push_front(Box::new(i)).is_ok()
        } else {
            deque.push_back(Box::new(i)).is_ok()
        };
        if ok {
            pushed.push(i);
        }
        if i % 3 == 0 {
            if let Some(v) = deque.pop_back() {
                popped.push(*v);
            }
        }
    }
    while let Some(v) = deque.pop_front() {
        popped.push(*v);
    }
    popped.sort();
    assert_eq!(pushed, popped);
}

#[test]
fn empty_deque_pops_none() {
    let deque: Joque<u8> = Joque::new(10);
    assert!(deque.pop_front().is_none());
    assert!(deque.pop_back().is_none());
    assert_eq!((5, 6), deque.extent());
}

#[test]
fn extent_moves_one_per_operation() {
    let deque = Joque::new(25);
    assert_eq!((12, 13), deque.extent());
    assert!(deque.push_front(Box::new(1u8)).is_ok());
    assert_eq!((11, 13), deque.extent());
    assert!(deque.push_back(Box::new(2u8)).is_ok());
    assert_eq!((11, 14), deque.extent());
    assert_eq!(1, *deque.pop_front().unwrap());
    assert_eq!((12, 14), deque.extent());
    assert_eq!(2, *deque.pop_back().unwrap());
    assert_eq!((12, 13), deque.extent());
    assert!(deque.pop_back().is_none());
    assert_eq!((12, 13), deque.extent());
}

#[test]
fn full_ring_hands_payload_back() {
    let deque = Joque::new(10);
    for i in 0..8u32 {
        assert!(deque.push_back(Box::new(i)).is_ok());
    }
    match deque.push_front(Box::new(99u32)) {
        Err(PushError::Full(p)) => assert_eq!(99, *p),
        _ => panic!("the ring holds width - 2 payloads"),
    }
    for i in 0..8u32 {
        assert_eq!(i, *deque.pop_front().unwrap());
    }
}

#[test]
fn arena_exhaustion_hands_payload_back() {
    let deque = Joque::new(10);
    for i in 1..40u32 {
        assert!(deque.push_back(Box::new(i)).is_ok());
        assert_eq!(i, *deque.pop_front().unwrap());
    }
    match deque.push_back(Box::new(40u32)) {
        Err(e) => {
            assert!(matches!(e, PushError::ArenaExhausted(_)));
            assert_eq!(40, *e.into_payload());
        }
        Ok(()) => panic!("cells are not reused"),
    }
}

#[test]
fn borrow_is_the_same_deque() {
    let deque = Joque::new(10);
    assert!(deque.borrow().push_back(Box::new(3u16)).is_ok());
    assert_eq!(3, *deque.pop_back().unwrap());
}

#[test]
fn try_pop_reports_empty_as_ok_none() {
    let deque = Joque::new(12);
    assert!(matches!(deque.try_pop_front(), Ok(None)));
    assert!(deque.push_back(Box::new(4u8)).is_ok());
    match deque.try_pop_back() {
        Ok(Some(v)) => assert_eq!(4, *v),
        _ => panic!("the payload is delivered"),
    }
    assert!(matches!(deque.try_pop_back(), Ok(None)));
}
