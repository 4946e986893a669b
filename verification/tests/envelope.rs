use sfxr_voice::Envelope;

#[test]
fn envelope_starts_in_attack() {
    let e = Envelope::new(3, 4, 5);
    assert_eq!(e.stage(), 0);
    assert_eq!(e.time(), 0);
    assert_eq!(e.length(0), 3);
    assert_eq!(e.length(1), 4);
    assert_eq!(e.length(2), 5);
    assert!(!e.finished());
}

#[test]
fn envelope_stage_lasts_length_plus_one_ticks() {
    let mut e = Envelope::new(2, 0, 1);
    // attack: times 1, 2, then the third tick moves on
    assert!(!e.tick());
    assert_eq!((e.stage(), e.time()), (0, 1));
    assert!(!e.tick());
    assert_eq!((e.stage(), e.time()), (0, 2));
    assert!(!e.tick());
    assert_eq!((e.stage(), e.time()), (1, 0));
    // sustain of length 0 lasts one tick
    assert!(!e.tick());
    assert_eq!((e.stage(), e.time()), (2, 0));
    assert!(!e.tick());
    assert_eq!((e.stage(), e.time()), (2, 1));
    assert!(e.tick());
    assert_eq!((e.stage(), e.time()), (3, 0));
    assert!(e.finished());
}

#[test]
fn envelope_ends_after_total_ticks() {
    // total = (10 + 1) + (20 + 1) + (5 + 1) = 38
    let mut e = Envelope::new(10, 20, 5);
    let mut ticks = 0;
    loop {
        ticks += 1;
        if e.tick() {
            break;
        }
    }
    assert_eq!(ticks, 38);
}

#[test]
fn envelope_negative_length_lasts_one_tick() {
    let mut e = Envelope::new(-7, -1, -100);
    assert!(!e.tick());
    assert_eq!(e.stage(), 1);
    assert!(!e.tick());
    assert_eq!(e.stage(), 2);
    assert!(e.tick());
    assert_eq!(e.stage(), 3);
}
