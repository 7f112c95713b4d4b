use tcp_pow::{leading_zero_nibbles, Hashcash, WorkError};

fn sample(zero_count: i32) -> Hashcash {
    Hashcash::issue(zero_count, "10.0.0.1:4000".to_string(), 1000, 42)
}

#[test]
fn test_new_hash_cash() {
    let hashcash = Hashcash::new(3, "Word of Wisdom".to_string());
    assert_eq!(hashcash.zero_count, 3);
    assert_eq!(hashcash.resource, "Word of Wisdom".to_string());
}

#[test]
fn test_hash_valid() {
    let hash = vec![0, 16, 0, 0, 0];
    assert!(Hashcash::is_hash_valid(hash.clone(), 1));
    assert!(Hashcash::is_hash_valid(hash.clone(), 2));
    assert_eq!(Hashcash::is_hash_valid(hash.clone(), 3), false);
    assert_eq!(Hashcash::is_hash_valid(hash, 4), false);
}

#[test]
fn test_valid_hash() {
    let mut hashcash = Hashcash::new(4, "Word of Wisdom".to_string());
    let max_iter = 10000;
    if hashcash.is_valid() {
    } else {
        match hashcash.try_work(max_iter) {
            Ok(_) => {
                assert!(hashcash.is_valid());
                assert!(hashcash.counter > 0);
            }
            Err(_e) => {
                assert!(hashcash.counter > max_iter)
            }
        }
    }
}

#[test]
fn new_puzzle_defaults() {
    let h = Hashcash::new(2, "1.2.3.4:5".to_string());
    assert_eq!(h.version, 1);
    assert_eq!(h.ext, "");
    assert_eq!(h.counter, 0);
}

#[test]
fn nibbles_stop_at_high_nibble() {
    assert_eq!(leading_zero_nibbles(&[]), 0);
    assert_eq!(leading_zero_nibbles(&[0x10, 0x00]), 0);
    assert_eq!(leading_zero_nibbles(&[0x01, 0x00]), 1);
    assert_eq!(leading_zero_nibbles(&[0x00, 0x0f]), 3);
    assert_eq!(leading_zero_nibbles(&[0x00, 0x00]), 4);
    assert_eq!(leading_zero_nibbles(&[0x00, 0xf0, 0x00]), 2);
}

#[test]
fn difficulty_is_monotone() {
    let hash = vec![0, 0, 1, 255];
    for d in -2..=5 {
        assert!(Hashcash::is_hash_valid(hash.clone(), d));
    }
    assert!(!Hashcash::is_hash_valid(hash, 6));
}

#[test]
fn canonical_text_exact() {
    let h = Hashcash::issue(4, "127.0.0.1:1".to_string(), 100, 5);
    assert_eq!(h.to_string(), "1:4:100:127.0.0.1:1:NQ==::MA==");
    let mut n = Hashcash::issue(-3, "x".to_string(), -7, -12);
    n.counter = 31;
    assert_eq!(n.to_string(), "1:-3:-7:x:LTEy::MzE=");
}

#[test]
fn digest_exact() {
    let h = Hashcash::issue(4, "127.0.0.1:1".to_string(), 100, 5);
    assert_eq!(
        h.hash(),
        vec![
            151, 156, 6, 194, 39, 47, 210, 135, 225, 204, 56, 89, 194, 158, 41, 58, 206, 189,
            229, 252, 224, 84, 194, 136, 183, 127, 134, 211, 171, 160, 42, 232
        ]
    );
}

#[test]
fn equal_puzzles_equal_digests() {
    let a = sample(2);
    let b = sample(2);
    assert_eq!(a.hash(), b.hash());
    let mut c = sample(2);
    c.counter = 1;
    assert_ne!(a.hash(), c.hash());
}

#[test]
fn solve_stops_at_first_solution() {
    let mut h = sample(1);
    assert_eq!(h.try_work(1000), Ok(()));
    assert_eq!(h.counter, 14);
    assert!(h.is_valid());
    let mut h2 = sample(2);
    assert_eq!(h2.try_work(1000), Ok(()));
    assert_eq!(h2.counter, 28);
    assert!(h2.is_valid());
}

#[test]
fn solve_budget_too_small() {
    let mut h = sample(2);
    assert_eq!(h.try_work(27), Err(WorkError::MaxIterationsExceeded));
    assert_eq!(h.counter, 28);
}

#[test]
fn solve_with_zero_budget_fails() {
    let mut h = sample(2);
    assert!(!h.is_valid());
    assert_eq!(h.try_work(0), Err(WorkError::MaxIterationsExceeded));
    assert_eq!(h.counter, 1);
}

#[test]
fn solve_counter_already_past_budget() {
    let mut h = sample(1);
    h.counter = 50;
    assert_eq!(h.try_work(10), Err(WorkError::MaxIterationsExceeded));
    assert_eq!(h.counter, 50);
}
