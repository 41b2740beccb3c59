use h264_glitcher::sigma_delta::SigmaDelta;
use h264_glitcher::beat_predictor::BeatPredictor;

#[test]
fn ones() {
    let mut sd = SigmaDelta::new();
    assert_eq!(sd.put(1000), 1);
    assert_eq!(sd.put(1000), 1);
    assert_eq!(sd.put(1000), 1);
    assert_eq!(sd.put(1000), 1);
    assert_eq!(sd.put(1000), 1);
    assert_eq!(sd.put(1000), 1);
    assert_eq!(sd.put(1000), 1);
    assert_eq!(sd.put(1000), 1);
    assert_eq!(sd.put(1000), 1);
}

#[test]
fn whole_numbers() {
    let mut sd = SigmaDelta::new();
    assert_eq!(sd.put(1000), 1);
    assert_eq!(sd.put(2000), 2);
    assert_eq!(sd.put(3000), 3);
    assert_eq!(sd.put(-2000), -2);
    assert_eq!(sd.put(1000), 1);
    assert_eq!(sd.put(2000), 2);
    assert_eq!(sd.put(3000), 3);
}

#[test]
fn half() {
    let mut sd = SigmaDelta::new();
    assert_eq!(sd.put(500), 0);
    assert_eq!(sd.put(500), 1);
    assert_eq!(sd.put(500), 0);
    assert_eq!(sd.put(500), 1);
    assert_eq!(sd.put(500), 0);
    assert_eq!(sd.put(500), 1);
    assert_eq!(sd.put(500), 0);
    assert_eq!(sd.put(500), 1);
    assert_eq!(sd.put(500), 0);
}

#[test]
fn negative_fraction_floors() {
    // -0.5 floors to -1 on the first tick; the average still converges
    let mut sd = SigmaDelta::new();
    assert_eq!(sd.put(-500), -1);
    assert_eq!(sd.put(-500), 0);
    assert_eq!(sd.put(-500), -1);
    assert_eq!(sd.put(-500), 0);
}

#[test]
fn third_averages_out() {
    let mut sd = SigmaDelta::new();
    let mut sum: i64 = 0;
    let mut i: usize = 0;
    while i < 300 {
        sum += sd.put(333);
        i += 1;
    }
    // 300 * 0.333 = 99.9; the emitted total stays within one of it
    assert!(sum == 99 || sum == 100);
    let diff: i64 = 300 * 333 - 1000 * sum;
    assert!(-1000 < diff && diff < 1000);
}

#[test]
fn beat_predictor_projection() {
    let mut bp = BeatPredictor::new();
    assert_eq!(bp.duration_to_next_beat(0, 0), None);
    bp.put_input_beat(1_000_000);
    assert_eq!(bp.duration_to_next_beat(1_000_000, 0), None);
    bp.put_input_beat(1_500_000);
    // two instants 500 ms apart
    assert_eq!(bp.duration_to_next_beat(1_500_000, 0), Some(500_000));
    assert_eq!(bp.duration_to_next_beat(1_500_000, 250_000), Some(250_000));
    assert_eq!(bp.duration_to_next_beat(1_500_000, 750_000), Some(250_000));
    // a multiplier of two halves the period
    bp.set_multiplier_exp(-1);
    assert_eq!(bp.duration_to_next_beat(1_500_000, 0), Some(250_000));
}

#[test]
fn beat_predictor_keeps_two() {
    let mut bp = BeatPredictor::new();
    bp.put_input_beat(100);
    bp.put_input_beat(200);
    bp.put_input_beat(1_000_200);
    bp.put_input_beat(1_000_500);
    // only the last two instants count: a 300 microsecond period
    assert_eq!(bp.duration_to_next_beat(1_000_500, 0), Some(300));
}
