use delay_reverb_fx::delay_line::DelayLine;

#[test]
fn delayed_read_returns_sample_written_delay_writes_ago() {
    let mut line = DelayLine::new(3, 0.0f32);
    let inputs = [1.0f32, 2.0, 3.0, 4.0, 5.0, 6.0];
    let mut outputs = Vec::new();
    for &x in inputs.iter() {
        outputs.push(line.read_delayed());
        line.write(x);
    }
    assert_eq!(outputs, vec![0.0, 0.0, 0.0, 1.0, 2.0, 3.0]);
}

#[test]
fn long_run_wraps_around_the_ring() {
    // a delay of 225 uses a ring of 512 slots
    let mut line = DelayLine::new(225, 0i64);
    for x in 0..2000i64 {
        let expected = if x >= 225 { x - 225 } else { 0 };
        assert_eq!(line.read_delayed(), expected);
        line.write(x);
    }
}

#[test]
fn zero_delay_reads_oldest_slot() {
    // ring of 64 slots: with a delay of 0 the read is the sample written 64 writes ago
    let mut line = DelayLine::new(0, 0i32);
    for x in 1..=64i32 {
        line.write(x);
    }
    assert_eq!(line.read_delayed(), 1);
    line.write(65);
    assert_eq!(line.read_delayed(), 2);
}

#[test]
fn reset_restores_silence() {
    let mut line = DelayLine::new(2, 0.0f32);
    line.write(1.0);
    line.write(2.0);
    line.write(3.0);
    line.reset();
    assert_eq!(line.read_delayed(), 0.0);
    line.write(4.0);
    line.write(5.0);
    assert_eq!(line.read_delayed(), 4.0);
}
