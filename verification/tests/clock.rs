use sfxr_voice::PhaseClock;

#[test]
fn clock_period_is_at_least_eight() {
    let mut c = PhaseClock::new(3);
    assert_eq!(c.period(), 3);
    c.set_period(3);
    assert_eq!(c.period(), 8);
    c.set_period(-50);
    assert_eq!(c.period(), 8);
    c.set_period(8);
    assert_eq!(c.period(), 8);
    c.set_period(1000);
    assert_eq!(c.period(), 1000);
}

#[test]
fn clock_wraps_at_period() {
    let mut c = PhaseClock::new(0);
    c.set_period(8);
    for i in 1..8 {
        assert!(!c.advance());
        assert_eq!(c.phase(), i);
    }
    assert!(c.advance());
    assert_eq!(c.phase(), 0);
}

#[test]
fn clock_wraps_to_remainder_when_period_shrinks() {
    let mut c = PhaseClock::new(0);
    c.set_period(100);
    for _ in 0..25 {
        c.advance();
    }
    assert_eq!(c.phase(), 25);
    c.set_period(10);
    assert!(c.advance());
    assert_eq!(c.phase(), 26 % 10);
}

#[test]
fn clock_rewind_and_raw_period() {
    let mut c = PhaseClock::new(0);
    c.set_period(20);
    c.advance();
    c.advance();
    c.set_raw_period(-4);
    assert_eq!(c.period(), -4);
    assert_eq!(c.phase(), 2);
    c.rewind();
    assert_eq!(c.phase(), 0);
    assert_eq!(c.period(), -4);
}
