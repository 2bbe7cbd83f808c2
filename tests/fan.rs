use lact_schema::ControlError;
use lact_schema::fan::{
    check_curve, default_fan_curve, interpolate, FanControlMode, FanController, FanCurve,
    FanOptions, PmfwOptions,
};

fn scenario_curve() -> FanCurve {
    FanCurve { points: vec![(40, 300), (60, 500), (80, 1000)] }
}

fn curve_options(curve: FanCurve, delay: u64, threshold: u64) -> FanOptions {
    FanOptions {
        id: "card0".to_string(),
        enabled: true,
        mode: Some(FanControlMode::Curve),
        static_speed: None,
        curve: Some(curve),
        pmfw: PmfwOptions::default(),
        spindown_delay_ms: Some(delay),
        change_threshold: Some(threshold),
    }
}

#[test]
fn interpolates_between_points() {
    assert_eq!(interpolate(&scenario_curve(), 50_000), 400);
}

#[test]
fn clamps_above_highest_point() {
    assert_eq!(interpolate(&scenario_curve(), 90_000), 1000);
}

#[test]
fn clamps_below_lowest_point() {
    assert_eq!(interpolate(&scenario_curve(), 10_000), 300);
}

#[test]
fn empty_curve_is_fan_off() {
    assert_eq!(interpolate(&FanCurve { points: vec![] }, 55_000), 0);
}

#[test]
fn single_point_is_constant() {
    let c = FanCurve { points: vec![(50, 420)] };
    assert_eq!(interpolate(&c, 0), 420);
    assert_eq!(interpolate(&c, 99_000), 420);
}

#[test]
fn fractional_temperature_interpolates() {
    // 70.5 degrees lies between 500 at 60 and 1000 at 80
    assert_eq!(interpolate(&scenario_curve(), 70_500), 762);
}

#[test]
fn decreasing_segment_rounds_towards_first_point() {
    let c = FanCurve { points: vec![(40, 1000), (60, 0)] };
    assert_eq!(interpolate(&c, 45_000), 750);
    assert_eq!(interpolate(&c, 59_999), 1);
}

#[test]
fn monotone_curve_gives_monotone_duty() {
    let c = default_fan_curve();
    let mut last = 0;
    let mut t = -10_000;
    while t <= 100_000 {
        let d = interpolate(&c, t);
        assert!(d >= last);
        last = d;
        t += 250;
    }
}

#[test]
fn default_curve_values() {
    let c = default_fan_curve();
    assert_eq!(c.points, vec![(40, 300), (50, 350), (60, 500), (70, 750), (80, 1000)]);
    assert!(check_curve(&c));
}

#[test]
fn invalid_curves_are_rejected() {
    assert!(!check_curve(&FanCurve { points: vec![(60, 300), (40, 500)] }));
    assert!(!check_curve(&FanCurve { points: vec![(40, 300), (40, 500)] }));
    assert!(!check_curve(&FanCurve { points: vec![(40, 1001)] }));
    let opts = curve_options(FanCurve { points: vec![(60, 300), (40, 500)] }, 0, 0);
    assert_eq!(opts.validate(), Err(ControlError::InvalidCurve));
    assert_eq!(curve_options(scenario_curve(), 0, 0).validate(), Ok(()));
}

#[test]
fn static_speed_out_of_range_is_rejected() {
    let mut opts = curve_options(scenario_curve(), 0, 0);
    opts.mode = Some(FanControlMode::Static);
    opts.static_speed = Some(1500);
    assert_eq!(opts.validate(), Err(ControlError::InvalidCurve));
}

#[test]
fn mode_parses() {
    assert_eq!("curve".parse::<FanControlMode>(), Ok(FanControlMode::Curve));
    assert_eq!("static".parse::<FanControlMode>(), Ok(FanControlMode::Static));
    assert!("fast".parse::<FanControlMode>().is_err());
    assert_eq!(FanControlMode::default(), FanControlMode::Curve);
}

#[test]
fn pmfw_options_empty() {
    assert!(PmfwOptions::default().is_empty());
    let mut o = PmfwOptions::default();
    o.zero_rpm = Some(false);
    assert!(!o.is_empty());
}

#[test]
fn first_sample_is_written() {
    let opts = curve_options(scenario_curve(), 5000, 50);
    let mut c = FanController::new();
    assert_eq!(c.step(&opts, 50_000, 0), Some(400));
}

#[test]
fn rise_is_written_at_once() {
    let opts = curve_options(scenario_curve(), 5000, 50);
    let mut c = FanController::new();
    c.step(&opts, 50_000, 0);
    assert_eq!(c.step(&opts, 70_000, 10), Some(750));
}

#[test]
fn drop_waits_for_spindown_delay() {
    let opts = curve_options(scenario_curve(), 5000, 50);
    let mut c = FanController::new();
    assert_eq!(c.step(&opts, 70_000, 0), Some(750));
    assert_eq!(c.step(&opts, 50_000, 1000), None);
    assert_eq!(c.step(&opts, 50_000, 3000), None);
    assert_eq!(c.step(&opts, 50_000, 6000), Some(400));
}

#[test]
fn downward_writes_are_spaced_by_delay() {
    let opts = curve_options(scenario_curve(), 2000, 0);
    let mut c = FanController::new();
    let temps = [80_000, 70_000, 60_000, 75_000, 50_000, 45_000, 40_000, 79_000, 41_000];
    let mut last_down: Option<u64> = None;
    let mut last: Option<u32> = None;
    let mut now = 0u64;
    for t in temps.iter().cycle().take(60) {
        if let Some(d) = c.step(&opts, *t, now) {
            if let Some(l) = last {
                if d < l {
                    if let Some(prev) = last_down {
                        assert!(now - prev >= 2000);
                    }
                    last_down = Some(now);
                }
            }
            last = Some(d);
        }
        now += 700;
    }
}

#[test]
fn small_changes_are_absorbed() {
    let opts = curve_options(scenario_curve(), 0, 100);
    let mut c = FanController::new();
    assert_eq!(c.step(&opts, 50_000, 0), Some(400));
    assert_eq!(c.step(&opts, 52_000, 10), None);
    assert_eq!(c.step(&opts, 48_000, 20), None);
    assert_eq!(c.step(&opts, 62_000, 30), Some(550));
}

#[test]
fn written_values_differ_by_threshold() {
    let opts = curve_options(scenario_curve(), 0, 40);
    let mut c = FanController::new();
    let mut last: Option<u32> = None;
    let mut t = 30_000;
    let mut now = 0u64;
    while t < 90_000 {
        if let Some(d) = c.step(&opts, t, now) {
            if let Some(l) = last {
                assert!(d.abs_diff(l) >= 40);
            }
            last = Some(d);
        }
        t += 700;
        now += 100;
    }
}

#[test]
fn static_mode_writes_once() {
    let mut opts = curve_options(scenario_curve(), 0, 0);
    opts.mode = Some(FanControlMode::Static);
    opts.static_speed = Some(600);
    let mut c = FanController::new();
    assert_eq!(c.step(&opts, 30_000, 0), Some(600));
    assert_eq!(c.step(&opts, 90_000, 100), None);
}

#[test]
fn disabled_control_writes_nothing() {
    let mut opts = curve_options(scenario_curve(), 0, 0);
    opts.enabled = false;
    let mut c = FanController::new();
    assert_eq!(c.step(&opts, 50_000, 0), None);
    assert_eq!(c.last_duty, None);
}

#[test]
fn failed_write_is_reported_and_undone() {
    let opts = curve_options(scenario_curve(), 0, 0);
    let mut c = FanController::new();
    let before = c;
    assert_eq!(c.step(&opts, 50_000, 0), Some(400));
    assert_eq!(c.settle(before, false), Err(ControlError::HardwareWriteFailed));
    assert_eq!(c, before);
    assert_eq!(c.step(&opts, 50_000, 10), Some(400));
    let kept = c;
    assert_eq!(c.settle(FanController::new(), true), Ok(()));
    assert_eq!(c, kept);
}

#[test]
fn mode_parse_is_case_sensitive() {
    assert_eq!("Curve".parse::<FanControlMode>(), Err("unknown fan control mode".to_string()));
    assert_eq!("".parse::<FanControlMode>(), Err("unknown fan control mode".to_string()));
    assert_eq!("curve".parse::<FanControlMode>(), Ok(FanControlMode::default()));
}
