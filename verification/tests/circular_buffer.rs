use delay_reverb_fx::circular_buffer::CircularBuffer;

#[test]
fn new_rounds_size_up_to_power_of_two() {
    assert_eq!(CircularBuffer::new(0, 0.0f32).len(), 4);
    assert_eq!(CircularBuffer::new(3, 0.0f32).len(), 4);
    assert_eq!(CircularBuffer::new(4, 0.0f32).len(), 4);
    assert_eq!(CircularBuffer::new(5, 0.0f32).len(), 8);
    assert_eq!(CircularBuffer::new(1000, 0.0f32).len(), 1024);
    assert_eq!(CircularBuffer::new(1024, 0.0f32).len(), 1024);
    // a chorus at 44.1 kHz asks for 0.05 s plus 256 samples
    assert_eq!(CircularBuffer::new(2461, 0.0f32).len(), 4096);
}

#[test]
fn new_buffer_reads_silence() {
    let buf = CircularBuffer::new(16, 0.0f32);
    for d in 0..20 {
        assert_eq!(buf.read_sample(d), 0.0);
    }
}

#[test]
fn delay_one_returns_latest_sample() {
    let mut buf = CircularBuffer::new(8, 0.0f32);
    buf.write_sample(0.25);
    assert_eq!(buf.read_sample(1), 0.25);
    buf.write_sample(-0.5);
    assert_eq!(buf.read_sample(1), -0.5);
    assert_eq!(buf.read_sample(2), 0.25);
}

#[test]
fn delay_zero_is_clamped_to_one() {
    let mut buf = CircularBuffer::new(8, 0.0f32);
    buf.write_sample(1.0);
    buf.write_sample(2.0);
    assert_eq!(buf.read_sample(0), 2.0);
}

#[test]
fn delay_is_clamped_to_len_minus_one() {
    let mut buf = CircularBuffer::new(4, 0u32);
    for x in 1..=10u32 {
        buf.write_sample(x);
    }
    // the buffer holds 7, 8, 9, 10; the longest delay is 3
    assert_eq!(buf.read_sample(3), 8);
    assert_eq!(buf.read_sample(4), 8);
    assert_eq!(buf.read_sample(usize::MAX), 8);
}

#[test]
fn read_returns_sample_written_delay_writes_ago_across_wraps() {
    let mut buf = CircularBuffer::new(8, 0i64);
    for x in 0..100i64 {
        buf.write_sample(x);
        for d in 1..8usize {
            let expected = if (d as i64) <= x + 1 { x + 1 - d as i64 } else { 0 };
            assert_eq!(buf.read_sample(d), expected);
        }
    }
}

#[test]
fn clear_restores_silence() {
    let mut buf = CircularBuffer::new(8, 0.0f32);
    for i in 0..13 {
        buf.write_sample(i as f32);
    }
    buf.clear();
    assert_eq!(buf.len(), 8);
    for d in 0..10 {
        assert_eq!(buf.read_sample(d), 0.0);
    }
    buf.write_sample(3.0);
    assert_eq!(buf.read_sample(1), 3.0);
    assert_eq!(buf.read_sample(2), 0.0);
}

#[test]
fn silence_can_be_any_value() {
    let mut buf = CircularBuffer::new(4, -1i32);
    assert_eq!(buf.read_sample(2), -1);
    buf.write_sample(5);
    buf.clear();
    assert_eq!(buf.read_sample(1), -1);
}

#[test]
fn prefill_silences_whole_history() {
    let mut buf = CircularBuffer::new(8, 0.0f32);
    for i in 0..5 {
        buf.write_sample(1.0 + i as f32);
    }
    buf.prefill_silence();
    assert_eq!(buf.len(), 8);
    for d in 0..10 {
        assert_eq!(buf.read_sample(d), 0.0);
    }
    buf.write_sample(2.5);
    assert_eq!(buf.read_sample(1), 2.5);
    assert_eq!(buf.read_sample(2), 0.0);
}
