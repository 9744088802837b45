use scout::pool::Pool;
use scout::{BUFFER_LIMIT, POOL_LIMIT};

#[test]
fn pool_never_exceeds_its_limit() {
    let mut p = Pool::new(6, 3);
    for i in 0..40 {
        p.push(format!("line-{}", i));
        assert!(p.overflow_len() <= 3);
        p.flush_if_full();
        assert!(p.len() <= 6);
        assert!(p.overflow_len() < 3);
    }
    p.drain_remaining();
    assert!(p.len() <= 6);
    assert_eq!(p.overflow_len(), 0);
}

#[test]
fn fill_then_one_batch_eviction() {
    let mut p = Pool::new(4, 2);
    for i in 0..4 {
        p.push(format!("l{}", i));
        assert!(!p.flush_if_full());
    }
    assert_eq!(p.len(), 4);
    p.push("l4".to_string());
    assert!(!p.flush_if_full());
    assert_eq!(p.len(), 4);
    assert_eq!(p.overflow_len(), 1);
    p.push("l5".to_string());
    assert!(p.flush_if_full());
    assert_eq!(p.len(), 4);
    assert_eq!(p.overflow_len(), 0);
    let snap = p.snapshot_for_read();
    assert_eq!(snap, &vec!["l2".to_string(), "l3".to_string(), "l4".to_string(), "l5".to_string()]);
}

#[test]
fn partial_batch_drains_at_end_of_input() {
    let mut p = Pool::new(3, 2);
    for i in 0..3 {
        p.push(format!("l{}", i));
        p.flush_if_full();
    }
    p.push("l3".to_string());
    assert!(!p.flush_if_full());
    p.drain_remaining();
    assert_eq!(p.len(), 3);
    assert_eq!(p.overflow_len(), 0);
    let snap = p.snapshot_for_read();
    assert_eq!(snap, &vec!["l1".to_string(), "l2".to_string(), "l3".to_string()]);
}

#[test]
fn sixty_thousand_lines_leave_the_newest_fifty_thousand() {
    let mut p = Pool::new(POOL_LIMIT, BUFFER_LIMIT);
    let mut flushes = 0;
    for i in 0..60000 {
        p.push(format!("line-{:05}", i));
        assert!(p.overflow_len() <= BUFFER_LIMIT);
        if p.flush_if_full() {
            flushes += 1;
        }
        assert!(p.len() <= POOL_LIMIT);
    }
    p.drain_remaining();
    assert_eq!(p.len(), POOL_LIMIT);
    assert_eq!(flushes, 2);
    let snap = p.snapshot_for_read();
    assert_eq!(snap[0], "line-10000");
    assert_eq!(snap[POOL_LIMIT - 1], "line-59999");
    assert_eq!(snap[1], "line-10001");
}
