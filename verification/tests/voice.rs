use sfxr_voice::{ResetPlan, Voice, WaveType};

fn plan() -> ResetPlan {
    ResetPlan {
        period: 3,
        arpeggio_limit: 5,
        attack: 2,
        sustain: 1,
        decay: 0,
        phaser_offset: -1500,
        repeat_limit: 7,
    }
}

#[test]
fn new_voice_plays_from_the_plan() {
    let v: Voice<f32> = Voice::new(&plan(), 0.0);
    assert!(v.is_playing());
    assert_eq!(v.clock().phase(), 0);
    assert_eq!(v.clock().period(), 3);
    assert_eq!(v.arpeggio().limit(), 5);
    assert_eq!(v.arpeggio().time(), 0);
    assert_eq!(v.repeat().limit(), 7);
    assert_eq!(v.repeat().time(), 0);
    assert_eq!(v.envelope().stage(), 0);
    assert_eq!(v.envelope().length(0), 2);
    assert_eq!(v.envelope().length(1), 1);
    assert_eq!(v.envelope().length(2), 0);
    assert_eq!(v.phaser_offset(), 1500);
}

fn step(v: &mut Voice<f32>) -> bool {
    v.begin_frame(3, 5).expect("playing");
    v.finish_frame(false, 3, 0)
}

#[test]
fn voice_stops_when_envelope_ends_and_stays_stopped() {
    let mut v: Voice<f32> = Voice::new(&plan(), 0.0);
    // (2 + 1) + (1 + 1) + (0 + 1) = 6 steps
    for _ in 0..5 {
        assert!(!step(&mut v));
        assert!(v.is_playing());
    }
    assert!(step(&mut v));
    assert!(!v.is_playing());
    assert!(v.begin_frame(3, 5).is_none());
    v.restart(10, 3);
    assert!(!v.is_playing());
    let p = plan();
    v.reset(&p, 0.0);
    assert!(!v.is_playing());
    assert_eq!(v.envelope().stage(), 0);
    assert!(v.begin_frame(3, 5).is_none());
}

#[test]
fn finish_frame_stop_ends_the_sound() {
    let mut v: Voice<f32> = Voice::new(&plan(), 0.0);
    v.begin_frame(3, 5).unwrap();
    assert!(!v.finish_frame(true, 100, 7));
    assert!(!v.is_playing());
    assert_eq!(v.envelope().stage(), 0);
    assert_eq!(v.envelope().time(), 1);
    assert_eq!(v.clock().period(), 100);
    assert_eq!(v.phaser_offset(), 7);
}

#[test]
fn finish_frame_clamps_period_and_offset() {
    let mut v: Voice<f32> = Voice::new(&plan(), 0.0);
    v.begin_frame(3, 5).unwrap();
    v.finish_frame(false, 2, 5000);
    assert_eq!(v.clock().period(), 8);
    assert_eq!(v.phaser_offset(), 1023);
    v.begin_frame(3, 5).unwrap();
    v.finish_frame(false, 9, 17);
    assert_eq!(v.clock().period(), 9);
    assert_eq!(v.phaser_offset(), 17);
}

#[test]
fn restart_keeps_phase_and_rearms_arpeggio() {
    let mut v: Voice<f32> = Voice::new(&plan(), 0.0);
    v.begin_frame(3, 5).unwrap();
    v.finish_frame(false, 50, 0);
    for _ in 0..4 {
        v.advance_phase(WaveType::Square);
    }
    v.restart(-9, 100);
    assert_eq!(v.clock().phase(), 4);
    assert_eq!(v.clock().period(), -9);
    assert_eq!(v.arpeggio().time(), 0);
    assert_eq!(v.arpeggio().limit(), 100);
    assert_eq!(v.repeat().time(), 1);
}

#[test]
fn reset_rewinds_everything_but_playing() {
    let mut v: Voice<i32> = Voice::new(&plan(), 0);
    v.begin_frame(3, 5).unwrap();
    v.finish_frame(false, 20, 0);
    v.advance_phase(WaveType::Sine);
    v.echo(99);
    let other = ResetPlan {
        period: 44,
        arpeggio_limit: 0,
        attack: 9,
        sustain: 8,
        decay: 7,
        phaser_offset: 12,
        repeat_limit: 0,
    };
    v.reset(&other, 0);
    assert!(v.is_playing());
    assert_eq!(v.clock().phase(), 0);
    assert_eq!(v.clock().period(), 44);
    assert_eq!(v.envelope().stage(), 0);
    assert_eq!(v.envelope().time(), 0);
    assert_eq!(v.envelope().length(0), 9);
    assert_eq!(v.repeat().time(), 0);
    assert_eq!(v.repeat().limit(), 0);
    assert_eq!(v.phaser_offset(), 12);
}

#[test]
fn reset_twice_is_reset_once() {
    let mut a: Voice<i32> = Voice::new(&plan(), 0);
    let mut b: Voice<i32> = Voice::new(&plan(), 0);
    for _ in 0..3 {
        a.begin_frame(3, 5).unwrap();
        a.finish_frame(false, 11, 4);
        a.advance_phase(WaveType::Square);
        a.echo(1);
    }
    let p = plan();
    a.reset(&p, 0);
    a.restart(70, 2);
    a.reset(&p, 0);
    b.reset(&p, 0);
    assert_eq!(a.is_playing(), b.is_playing());
    assert_eq!(a.clock().phase(), b.clock().phase());
    assert_eq!(a.clock().period(), b.clock().period());
    assert_eq!(a.envelope().stage(), b.envelope().stage());
    assert_eq!(a.envelope().time(), b.envelope().time());
    assert_eq!(a.repeat().time(), b.repeat().time());
    assert_eq!(a.arpeggio().time(), b.arpeggio().time());
    assert_eq!(a.arpeggio().limit(), b.arpeggio().limit());
    assert_eq!(a.phaser_offset(), b.phaser_offset());
    a.finish_frame(false, 8, 3);
    b.finish_frame(false, 8, 3);
    for k in 0..10 {
        assert_eq!(a.echo(k), b.echo(k));
    }
}

#[test]
fn repeat_restarts_every_limit_samples() {
    let mut v: Voice<f32> = Voice::new(&plan(), 0.0);
    let mut due = Vec::new();
    for n in 1..=21 {
        let s = v.begin_frame(40, 9).unwrap();
        if s.repeated {
            due.push(n);
            assert_eq!(v.clock().period(), 40);
            assert_eq!(v.arpeggio().time(), 1);
            assert_eq!(v.arpeggio().limit(), 9);
        }
        v.restart(3, 5);
    }
    assert_eq!(due, vec![7, 14, 21]);
}

#[test]
fn arpeggio_jump_is_due_once() {
    let mut p = plan();
    p.repeat_limit = 0;
    p.sustain = 100;
    let mut v: Voice<f32> = Voice::new(&p, 0.0);
    let mut due = Vec::new();
    for n in 1..=30 {
        let s = v.begin_frame(3, 5).unwrap();
        if s.arpeggio {
            due.push(n);
        }
        v.finish_frame(false, 3, 0);
    }
    assert_eq!(due, vec![5]);
    assert_eq!(v.arpeggio().limit(), 0);
    assert_eq!(v.arpeggio().time(), 30);
}

#[test]
fn echo_returns_sample_from_offset_ago() {
    let mut v: Voice<i32> = Voice::new(&plan(), 0);
    v.begin_frame(3, 5).unwrap();
    v.finish_frame(false, 3, 2);
    assert_eq!(v.echo(1), 0);
    assert_eq!(v.echo(2), 0);
    assert_eq!(v.echo(3), 1);
    assert_eq!(v.echo(4), 2);
    v.begin_frame(3, 5).unwrap();
    v.finish_frame(false, 3, 0);
    assert_eq!(v.echo(9), 9);
}

#[test]
fn noise_refills_only_on_wrap_of_noise_wave() {
    let mut v: Voice<f32> = Voice::new(&plan(), 0.0);
    v.begin_frame(3, 5).unwrap();
    v.finish_frame(false, 2, 0);
    assert_eq!(v.clock().period(), 8);
    let mut refills = 0;
    for _ in 0..16 {
        if v.advance_phase(WaveType::Noise) {
            refills += 1;
        }
    }
    assert_eq!(refills, 2);
    for _ in 0..16 {
        assert!(!v.advance_phase(WaveType::Square));
    }
    assert!(v.clock().phase() < v.clock().period());
}

#[test]
fn echo_moves_write_position_on() {
    let mut v: Voice<i32> = Voice::new(&plan(), 0);
    v.begin_frame(3, 5).unwrap();
    v.finish_frame(false, 3, 1023);
    // the slot written 1023 writes ago is the one about to be overwritten
    for k in 0..2048 {
        let r = v.echo(k);
        if k >= 1023 {
            assert_eq!(r, k - 1023);
        } else {
            assert_eq!(r, 0);
        }
    }
}

#[test]
fn repeat_count_stays_below_positive_limit() {
    let mut p = plan();
    p.sustain = 1000;
    let mut v: Voice<f32> = Voice::new(&p, 0.0);
    for _ in 0..50 {
        v.begin_frame(3, 5).unwrap();
        assert!(v.repeat().time() < v.repeat().limit());
        v.finish_frame(false, 3, 0);
    }
}

#[test]
fn sound_plays_exactly_its_frames() {
    // total (4 + 1) + (0 + 1) + (2 + 1) = 9 steps
    let p = ResetPlan {
        period: 10,
        arpeggio_limit: 0,
        attack: 4,
        sustain: 0,
        decay: 2,
        phaser_offset: 0,
        repeat_limit: 3,
    };
    let mut v: Voice<f32> = Voice::new(&p, 0.0);
    let mut steps = 0;
    while v.begin_frame(10, 0).is_some() {
        steps += 1;
        v.finish_frame(false, 10, 0);
    }
    assert_eq!(steps, 9);
}

#[test]
fn wave_types_compare() {
    assert_eq!(WaveType::Noise, WaveType::Noise);
    assert_ne!(WaveType::Noise, WaveType::Sine);
    let w = WaveType::Triangle;
    let copy = w;
    assert_eq!(w, copy);
}
