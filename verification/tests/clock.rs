use yinchabot::trigger::ClockTime;
use yinchabot::trigger::local_of_utc;
use yinchabot::trigger::trigger_fires;
use yinchabot::trigger::trigger_now;

#[test]
fn trigger_window_start_fires() {
    let t = ClockTime { hour: 15, minute: 0, second: 0 };
    assert!(trigger_fires(&t));
}

#[test]
fn trigger_window_last_second_fires() {
    let t = ClockTime { hour: 15, minute: 0, second: 10 };
    assert!(trigger_fires(&t));
}

#[test]
fn past_trigger_window_does_not_fire() {
    let t = ClockTime { hour: 15, minute: 0, second: 12 };
    assert!(!trigger_fires(&t));
}

#[test]
fn just_before_trigger_window_does_not_fire() {
    let t = ClockTime { hour: 14, minute: 59, second: 59 };
    assert!(!trigger_fires(&t));
}

#[test]
fn wrong_hour_does_not_fire() {
    let t = ClockTime { hour: 7, minute: 0, second: 5 };
    assert!(!trigger_fires(&t));
}

#[test]
fn local_time_is_utc_shifted_east() {
    let t = local_of_utc(7, 0, 10);
    assert_eq!(t, ClockTime { hour: 15, minute: 0, second: 10 });
}

#[test]
fn local_hour_wraps_at_midnight() {
    let t = local_of_utc(20, 30, 59);
    assert_eq!(t, ClockTime { hour: 4, minute: 30, second: 59 });
}

#[test]
fn trigger_now_reports_the_decision_for_its_sample() {
    let (fire, t) = trigger_now();
    assert!(t.hour < 24 && t.minute < 60 && t.second < 60);
    assert_eq!(fire, t.hour == 15 && t.minute == 0 && t.second < 11);
}
