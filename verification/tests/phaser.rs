use sfxr_voice::DelayLine;

#[test]
fn delay_zero_returns_the_sample_just_written() {
    let mut d: DelayLine<i64> = DelayLine::new(0);
    assert_eq!(d.process(7, 0), 7);
    assert_eq!(d.process(-3, 0), -3);
}

#[test]
fn delay_returns_sample_written_earlier() {
    let mut d: DelayLine<i64> = DelayLine::new(0);
    for i in 1..=10 {
        d.process(i, 0);
    }
    // the samples before 11 are 10, 9, 8, ...
    assert_eq!(d.process(11, 1), 10);
    assert_eq!(d.process(12, 5), 7);
    // never written slots still hold the silent value
    assert_eq!(d.process(13, 1000), 0);
}

#[test]
fn delay_line_wraps_around() {
    let mut d: DelayLine<i64> = DelayLine::new(-1);
    for i in 0..3000 {
        let r = d.process(i, 1023);
        if i >= 1023 {
            assert_eq!(r, i - 1023);
        } else {
            assert_eq!(r, -1);
        }
    }
}

#[test]
fn clear_forgets_everything() {
    let mut d: DelayLine<f32> = DelayLine::new(0.0);
    for i in 0..100 {
        d.process(i as f32, 0);
    }
    d.clear(0.0);
    for k in 1..1024 {
        assert_eq!(d.process(5.0, k), 0.0);
        d.clear(0.0);
    }
}
