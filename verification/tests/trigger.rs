use sfxr_voice::Trigger;

#[test]
fn cycling_trigger_fires_every_limit_ticks() {
    let mut t = Trigger::new(4);
    let mut fired_at = Vec::new();
    for n in 1..=13 {
        if t.tick_cycle() {
            fired_at.push(n);
        }
    }
    assert_eq!(fired_at, vec![4, 8, 12]);
    assert_eq!(t.time(), 1);
    assert_eq!(t.limit(), 4);
}

#[test]
fn trigger_with_zero_limit_never_fires() {
    let mut t = Trigger::new(0);
    for n in 1..=50 {
        assert!(!t.tick_cycle());
        assert_eq!(t.time(), n);
    }
    let mut u = Trigger::new(0);
    for _ in 0..50 {
        assert!(!u.tick_once());
    }
}

#[test]
fn one_shot_trigger_fires_once() {
    let mut t = Trigger::new(3);
    let mut fired = 0;
    for _ in 0..20 {
        if t.tick_once() {
            fired += 1;
            assert_eq!(t.time(), 3);
            assert_eq!(t.limit(), 0);
        }
    }
    assert_eq!(fired, 1);
    assert_eq!(t.time(), 20);
    t.rearm(2);
    assert!(!t.tick_once());
    assert!(t.tick_once());
}

#[test]
fn trigger_with_negative_limit_fires_at_once() {
    let mut t = Trigger::new(-5);
    assert!(t.tick_cycle());
    assert_eq!(t.time(), 0);
}
