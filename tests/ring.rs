use flex::{RingError, RingState, SIGNAL_, SIGNAL_RING_B_, DEFAULT_RING_BUFFER_SIZE};

fn ready(capacity: usize) -> SIGNAL_RING_B_ {
    let mut rb = SIGNAL_RING_B_::new(capacity);
    assert_eq!(rb.init(), Ok(()));
    rb
}

#[test]
fn default_capacity_is_2048() {
    let rb = SIGNAL_RING_B_::with_default_capacity();
    assert_eq!(rb.capacity(), 2048);
    assert_eq!(DEFAULT_RING_BUFFER_SIZE, 2048);
    assert_eq!(rb.state(), RingState::Uninitialized);
    assert!(rb.is_empty());
}

#[test]
fn scenario_capacity_four() {
    let mut rb = ready(4);
    let s = SIGNAL_::from_samples(vec![1, 2, 3, 4]);
    assert_eq!(rb.charge_from(&s, 0), Ok(4));
    assert!(rb.is_full());
    let mut dest = SIGNAL_::from_samples(vec![0; 4]);
    assert_eq!(rb.read_into(&mut dest), Ok(4));
    assert_eq!(dest.as_slice(), &[1, 2, 3, 4]);
    // a further read has nothing to hand over: a blocking reader waits here
    assert!(rb.is_empty());
    let mut more = SIGNAL_::new();
    assert_eq!(rb.read_into(&mut more), Ok(0));
    assert_eq!(more.signal_size(), 0);
    assert!(!more.flag());
}

#[test]
fn round_trip_keeps_samples_in_order() {
    let samples: Vec<u32> = (0..2048u32).map(|i| (i as f32 * 0.5).to_bits()).collect();
    let mut rb = SIGNAL_RING_B_::with_default_capacity();
    rb.init().unwrap();
    let s = SIGNAL_::from_samples(samples.clone());
    assert_eq!(rb.charge_from(&s, 0), Ok(2048));
    let mut dest = SIGNAL_::new();
    assert_eq!(rb.read_into(&mut dest), Ok(2048));
    assert!(dest.flag());
    assert_eq!(dest.into_samples(), samples);
    assert!(rb.is_empty());
}

#[test]
fn full_buffer_takes_nothing_until_read() {
    let mut rb = ready(3);
    let s = SIGNAL_::from_samples(vec![10, 20, 30, 40, 50]);
    assert_eq!(rb.charge_from(&s, 0), Ok(3));
    assert!(rb.is_full());
    assert_eq!(rb.charge_from(&s, 3), Ok(0));
    assert_eq!(rb.buffered(), 3);
    let mut one = SIGNAL_::from_samples(vec![0]);
    assert_eq!(rb.read_into(&mut one), Ok(1));
    assert_eq!(one.as_slice(), &[10]);
    assert_eq!(rb.charge_from(&s, 3), Ok(1));
    let mut rest = SIGNAL_::new();
    assert_eq!(rb.read_into(&mut rest), Ok(3));
    assert_eq!(rest.as_slice(), &[20, 30, 40]);
}

#[test]
fn empty_buffer_hands_over_nothing_until_charged() {
    let mut rb = ready(2);
    let mut dest = SIGNAL_::from_samples(vec![7, 8]);
    assert_eq!(rb.read_into(&mut dest), Ok(0));
    assert_eq!(dest.as_slice(), &[7, 8]);
    let s = SIGNAL_::from_samples(vec![9]);
    assert_eq!(rb.charge_from(&s, 0), Ok(1));
    assert_eq!(rb.read_into(&mut dest), Ok(1));
    assert_eq!(dest.as_slice(), &[9, 8]);
}

#[test]
fn alternating_single_samples_stay_fifo() {
    let mut rb = ready(1);
    let values: Vec<u32> = (1..=50u32).map(|i| i * i).collect();
    let mut out = Vec::new();
    for &v in &values {
        let s = SIGNAL_::from_samples(vec![v]);
        assert_eq!(rb.charge_from(&s, 0), Ok(1));
        let mut dest = SIGNAL_::new();
        assert_eq!(rb.read_into(&mut dest), Ok(1));
        out.extend(dest.into_samples());
    }
    assert_eq!(out, values);
}

#[test]
fn cursors_wrap_around() {
    let mut rb = ready(4);
    assert_eq!(rb.charge_from(&SIGNAL_::from_samples(vec![1, 2, 3]), 0), Ok(3));
    let mut two = SIGNAL_::from_samples(vec![0, 0]);
    assert_eq!(rb.read_into(&mut two), Ok(2));
    assert_eq!(two.as_slice(), &[1, 2]);
    assert_eq!(rb.charge_from(&SIGNAL_::from_samples(vec![4, 5, 6, 7]), 0), Ok(3));
    assert!(rb.is_full());
    let mut all = SIGNAL_::new();
    assert_eq!(rb.read_into(&mut all), Ok(4));
    assert_eq!(all.as_slice(), &[3, 4, 5, 6]);
}

#[test]
fn partial_read_keeps_rest_of_destination() {
    let mut rb = ready(8);
    assert_eq!(rb.charge_from(&SIGNAL_::from_samples(vec![1, 2]), 0), Ok(2));
    let mut dest = SIGNAL_::from_samples(vec![9, 9, 9, 9]);
    assert_eq!(rb.read_into(&mut dest), Ok(2));
    assert_eq!(dest.as_slice(), &[1, 2, 9, 9]);
}

#[test]
fn charge_from_offset_resumes_a_signal() {
    let mut rb = ready(8);
    let s = SIGNAL_::from_samples(vec![1, 2, 3, 4, 5]);
    assert_eq!(rb.charge_from(&s, 2), Ok(3));
    assert_eq!(rb.charge_from(&s, 5), Ok(0));
    let mut dest = SIGNAL_::new();
    assert_eq!(rb.read_into(&mut dest), Ok(3));
    assert_eq!(dest.as_slice(), &[3, 4, 5]);
}

#[test]
fn charge_before_init_is_a_state_violation() {
    let mut rb = SIGNAL_RING_B_::new(4);
    let s = SIGNAL_::from_samples(vec![1]);
    assert_eq!(rb.charge_from(&s, 0), Err(RingError::StateViolation));
    let mut dest = SIGNAL_::new();
    assert_eq!(rb.read_into(&mut dest), Err(RingError::StateViolation));
    assert!(rb.is_empty());
    assert_eq!(rb.state(), RingState::Uninitialized);
}

#[test]
fn charge_after_destroy_is_a_state_violation() {
    let mut rb = ready(4);
    assert_eq!(rb.destroy(), Ok(()));
    assert_eq!(rb.state(), RingState::Destroyed);
    let s = SIGNAL_::from_samples(vec![1]);
    assert_eq!(rb.charge_from(&s, 0), Err(RingError::StateViolation));
    let mut dest = SIGNAL_::new();
    assert_eq!(rb.read_into(&mut dest), Err(RingError::StateViolation));
}

#[test]
fn lifecycle_transitions_happen_once() {
    let mut rb = SIGNAL_RING_B_::new(2);
    assert_eq!(rb.destroy(), Err(RingError::StateViolation));
    assert_eq!(rb.init(), Ok(()));
    assert_eq!(rb.state(), RingState::Ready);
    assert_eq!(rb.init(), Err(RingError::StateViolation));
    assert_eq!(rb.destroy(), Ok(()));
    assert_eq!(rb.destroy(), Err(RingError::StateViolation));
    assert_eq!(rb.init(), Err(RingError::StateViolation));
    assert_eq!(rb.state(), RingState::Destroyed);
}

#[test]
fn writer_waits_only_on_a_full_ready_buffer() {
    let mut rb = SIGNAL_RING_B_::new(2);
    rb.init().unwrap();
    assert!(!rb.charge_must_wait(1));
    assert_eq!(rb.charge_from(&SIGNAL_::from_samples(vec![1, 2]), 0), Ok(2));
    assert!(rb.charge_must_wait(1));
    assert!(!rb.charge_must_wait(0));
    let mut one = SIGNAL_::from_samples(vec![0]);
    assert_eq!(rb.read_into(&mut one), Ok(1));
    assert!(!rb.charge_must_wait(1));
    assert_eq!(rb.charge_from(&SIGNAL_::from_samples(vec![3]), 0), Ok(1));
    assert!(rb.charge_must_wait(1));
    rb.destroy().unwrap();
    assert!(!rb.charge_must_wait(1));
}

#[test]
fn reader_waits_only_on_an_empty_ready_buffer() {
    let mut rb = SIGNAL_RING_B_::new(2);
    assert!(!rb.read_must_wait());
    rb.init().unwrap();
    assert!(rb.read_must_wait());
    assert_eq!(rb.charge_from(&SIGNAL_::from_samples(vec![5]), 0), Ok(1));
    assert!(!rb.read_must_wait());
    let mut dest = SIGNAL_::new();
    assert_eq!(rb.read_into(&mut dest), Ok(1));
    assert!(rb.read_must_wait());
    rb.destroy().unwrap();
    assert!(!rb.read_must_wait());
}
