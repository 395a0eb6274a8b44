use syncbench::buffer::{
    run_bool_reader, run_fenced_reader, run_mutex_reader, run_seqcst_reader,
    run_unsynchronized_reader, Data, ReadError,
};

fn source() -> Vec<u8> {
    (1..=100u8).collect()
}

fn expected(src: &[u8], l: usize) -> usize {
    (0..l).map(|i| src[i % src.len()] as usize).sum()
}

#[test]
fn new_buffer_is_zero_filled() {
    let d = Data::new(10);
    assert_eq!(d.sum(), 0);
    assert_eq!(d.check_cursor(0), Ok(false));
}

#[test]
fn every_discipline_gives_the_same_checksum() {
    let src = source();
    let l = 1234;
    let want = expected(&src, l);

    let mut d = Data::new(l);
    d.push(&src);
    assert_eq!(d.sum(), want);

    let mut d = Data::new(l);
    d.mutex_push(&src);
    assert_eq!(d.sum(), want);

    let mut d = Data::new(l);
    d.atomic_seqcst_push(&src);
    assert_eq!(d.sum(), want);

    let mut d = Data::new(l);
    d.optional_atomic_push(&src, 5);
    assert_eq!(d.sum(), want);

    let mut d = Data::new(l);
    d.atomic_fenced_push(&src);
    assert_eq!(d.sum(), want);

    let mut d = Data::new(l);
    d.atomic_bool_push(&src);
    assert_eq!(d.sum(), want);
}

#[test]
fn checksum_exact_value() {
    let mut d = Data::new(7);
    d.push(&[3, 4]);
    // 3 4 3 4 3 4 3
    assert_eq!(d.sum(), 24);
}

#[test]
fn empty_buffer_pass() {
    let mut d = Data::new(0);
    d.atomic_seqcst_push(&[9]);
    assert_eq!(d.sum(), 0);
    assert_eq!(run_unsynchronized_reader(&d), Ok(()));
    assert_eq!(run_bool_reader(&d), Ok(()));
}

#[test]
fn a_second_pass_changes_nothing() {
    let mut d = Data::new(5);
    d.push(&[1, 2]);
    d.push(&[9]);
    assert_eq!(d.sum(), 1 + 2 + 1 + 2 + 1);
}

#[test]
fn readers_finish_after_a_complete_pass() {
    let src = source();

    let mut d = Data::new(300);
    d.atomic_seqcst_push(&src);
    assert_eq!(run_seqcst_reader(&d), Ok(()));

    let mut d = Data::new(300);
    d.atomic_fenced_push(&src);
    assert_eq!(run_fenced_reader(&d), Ok(()));

    let mut d = Data::new(300);
    d.mutex_push(&src);
    assert_eq!(run_mutex_reader(&d), Ok(()));

    let mut d = Data::new(300);
    d.atomic_bool_push(&src);
    assert_eq!(run_bool_reader(&d), Ok(()));

    let mut d = Data::new(300);
    d.optional_atomic_push(&src, 7);
    assert_eq!(run_unsynchronized_reader(&d), Ok(()));
}

#[test]
fn unsynchronized_reader_reports_a_zero_byte() {
    let mut d = Data::new(4);
    d.push(&[0]);
    assert_eq!(run_unsynchronized_reader(&d), Err(ReadError::WriterBehind(3)));
}

#[test]
fn lagging_slot_is_reported_by_every_reader() {
    let mut d = Data::new(4);
    d.atomic_seqcst_push(&[0]);
    assert_eq!(run_seqcst_reader(&d), Err(ReadError::WriterBehind(3)));

    let mut d = Data::new(4);
    d.atomic_fenced_push(&[0]);
    assert_eq!(run_fenced_reader(&d), Err(ReadError::WriterBehind(3)));

    let mut d = Data::new(4);
    d.mutex_push(&[0]);
    assert_eq!(run_mutex_reader(&d), Err(ReadError::WriterBehind(3)));

    let mut d = Data::new(4);
    d.atomic_bool_push(&[0]);
    assert_eq!(run_bool_reader(&d), Err(ReadError::WriterBehind(0)));
}

#[test]
fn unfinished_buffer_stalls() {
    let d = Data::new(10);
    assert_eq!(run_unsynchronized_reader(&d), Err(ReadError::Stalled));
    assert_eq!(run_seqcst_reader(&d), Err(ReadError::Stalled));
}

#[test]
fn flags_down_are_skipped() {
    let d = Data::new(10);
    assert_eq!(run_bool_reader(&d), Ok(()));
}

#[test]
fn check_cursor_cases() {
    let mut d = Data::new(3);
    d.push(&[5, 0, 7]);
    assert_eq!(d.check_cursor(0), Ok(false));
    assert_eq!(d.check_cursor(1), Ok(false));
    assert_eq!(d.check_cursor(2), Err(ReadError::WriterBehind(1)));
    assert_eq!(d.check_cursor(3), Ok(true));
    assert_eq!(d.check_cursor(4), Err(ReadError::CursorOutOfRange(4)));
}

#[test]
fn thousand_slots_four_unsynchronized_readers() {
    let src = source();
    let mut d = Data::new(1000);
    d.optional_atomic_push(&src, 5);
    for _ in 0..4 {
        assert_eq!(run_unsynchronized_reader(&d), Ok(()));
    }
    assert_eq!(d.sum(), 50500);
}

#[test]
fn plain_pass_publishes_nothing() {
    let mut d = Data::new(5);
    d.push(&[1, 2, 3]);
    assert_eq!(run_unsynchronized_reader(&d), Ok(()));
    assert_eq!(run_seqcst_reader(&d), Err(ReadError::Stalled));
    assert_eq!(run_mutex_reader(&d), Err(ReadError::Stalled));
    assert_eq!(run_bool_reader(&d), Ok(()));
}

#[test]
fn each_discipline_publishes_its_own_copy() {
    let mut d = Data::new(6);
    d.mutex_push(&[4]);
    assert_eq!(run_mutex_reader(&d), Ok(()));
    assert_eq!(run_fenced_reader(&d), Err(ReadError::Stalled));

    let mut d = Data::new(6);
    d.optional_atomic_push(&[4], 4);
    assert_eq!(run_seqcst_reader(&d), Ok(()));
    assert_eq!(run_mutex_reader(&d), Err(ReadError::Stalled));
}

#[test]
fn flag_reader_reports_the_first_lagging_slot() {
    let mut d = Data::new(4);
    d.atomic_bool_push(&[3, 0]);
    assert_eq!(run_bool_reader(&d), Err(ReadError::WriterBehind(1)));
    assert_eq!(d.check_flag(0, true), Ok(()));
    assert_eq!(d.check_flag(1, false), Ok(()));
    assert_eq!(d.check_flag(3, true), Err(ReadError::WriterBehind(3)));
}
