use syncbench::ring::{atomic_write_loop, write_loop, Base};

fn fill(n: u64) -> Base {
    let mut b = Base::new();
    for i in 1..=n {
        b.push(i);
    }
    b
}

#[test]
fn empty_ring_snapshot() {
    let b = Base::new();
    let s = b.read().unwrap();
    assert_eq!(s.len(), 0);
    assert_eq!(s.version(), 0);
    let s = b.read_server().unwrap();
    assert_eq!(s.len(), 0);
}

#[test]
fn one_past_capacity() {
    let b = fill(257);
    let s = b.read().unwrap();
    assert_eq!(s.len(), 1);
    assert_eq!(s.version(), 1);
    assert_eq!(s.as_slice()[0], 257);
}

#[test]
fn one_past_capacity_through_atomics() {
    let mut b = Base::new();
    for i in 1..=257u64 {
        b.atomic_push(i);
    }
    let s = b.read_server().unwrap();
    assert_eq!(s.len(), 1);
    assert_eq!(s.version(), 1);
    assert_eq!(s.as_slice(), &[257]);
}

#[test]
fn wrap_counts() {
    for (k, r) in [(0u64, 1u64), (0, 255), (1, 1), (2, 100), (3, 255)] {
        let b = fill(256 * k + r);
        let s = b.read().unwrap();
        assert_eq!(s.version() as u64, k);
        assert_eq!(s.len() as u64, r);
        assert_eq!(s.as_slice()[0], 256 * k + 1);
    }
}

#[test]
fn full_generation_is_not_wrapped_yet() {
    let b = fill(512);
    let s = b.read().unwrap();
    assert_eq!(s.version(), 1);
    assert_eq!(s.len(), 256);
    assert_eq!(s.as_slice()[255], 512);
}

#[test]
fn snapshots_match_history() {
    let mut b = Base::new();
    let mut history: Vec<u64> = Vec::new();
    for i in 0..1000u64 {
        b.push(i * 7 + 3);
        history.push(i * 7 + 3);
        if i % 37 == 0 {
            let s = b.read().unwrap();
            let n = history.len();
            let gen_len = (n - 1) % 256 + 1;
            assert_eq!(s.version(), (n - 1) / 256);
            assert_eq!(s.as_slice(), &history[n - gen_len..]);
        }
    }
}

#[test]
fn checksum_wraps() {
    let mut b = Base::new();
    b.push(u64::MAX);
    b.push(2);
    b.push(10);
    let s = b.read().unwrap();
    assert_eq!(s.checksum(), 11);
}

#[test]
fn write_loops_agree() {
    let words: Vec<u64> = (1..=1234).collect();
    let mut a = Base::new();
    write_loop(&mut a, &words, 1000);
    let mut b = Base::new();
    atomic_write_loop(&mut b, &words, 1000, 3);
    let sa = a.read().unwrap();
    let sb = b.read().unwrap();
    assert_eq!(sa.version(), 3);
    assert_eq!(sa.len(), 232);
    assert_eq!(sa.as_slice(), sb.as_slice());
    assert_eq!(sa.as_slice()[0], 769);
    assert_eq!(sb.version(), 3);
}

#[test]
fn published_snapshot_is_a_prefix_of_the_slots() {
    let mut b = Base::new();
    let words: Vec<u64> = (10..20).collect();
    atomic_write_loop(&mut b, &words, 300, 1);
    let s = b.read_server().unwrap();
    assert_eq!(s.version(), 1);
    assert_eq!(s.len(), 44);
    assert_eq!(s.as_slice()[0], words[256 % 10]);
}

#[test]
fn mixed_publication_snapshot() {
    let words: Vec<u64> = (1..=1234).collect();
    let mut b = Base::new();
    atomic_write_loop(&mut b, &words, 1000, 3);
    let s = b.read_server().unwrap();
    assert_eq!(s.version(), 3);
    assert_eq!(s.len(), 232);
    assert_eq!(s.as_slice()[0], 769);
}

#[test]
fn plain_appends_publish_only_wraps() {
    let words: Vec<u64> = (1..=10).collect();
    let mut b = Base::new();
    write_loop(&mut b, &words, 1000);
    let s = b.read_server().unwrap();
    assert_eq!(s.version(), 3);
    assert_eq!(s.len(), 0);
    b.atomic_push(77);
    let s = b.read_server().unwrap();
    assert_eq!(s.len(), 233);
    assert_eq!(s.as_slice()[232], 77);
}

#[test]
fn snapshot_attempt_keeps_only_a_stable_version() {
    let b = Base::new();
    let s = b.snapshot_attempt(4, vec![1, 2], 4).unwrap();
    assert_eq!(s.version(), 4);
    assert_eq!(s.as_slice(), &[1, 2]);
    assert!(b.snapshot_attempt(4, vec![1, 2], 5).is_none());
}
