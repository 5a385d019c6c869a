use magneto_pad::report::{KeyboardReport, ReportDiffer};

fn report(keycodes: [u8; 6]) -> KeyboardReport {
    KeyboardReport {
        modifier: 0,
        reserved: 0,
        leds: 0,
        keycodes,
    }
}

#[test]
fn test_first_report_is_retained_silently() {
    let mut differ = ReportDiffer::new();
    assert!(differ.push(report([0; 6])).is_none());
}

#[test]
fn test_equal_reports_cause_at_most_one_send() {
    let mut differ = ReportDiffer::new();
    differ.push(report([0; 6]));
    let r = report([4, 0, 0, 0, 0, 0]);
    let sends = [differ.push(r), differ.push(r)];
    let count = sends.iter().filter(|s| s.is_some()).count();
    assert_eq!(count, 1);
}

#[test]
fn test_differing_reports_cause_two_sends() {
    let mut differ = ReportDiffer::new();
    differ.push(report([0; 6]));
    let first = differ.push(report([4, 0, 0, 0, 0, 0]));
    let second = differ.push(report([5, 0, 0, 0, 0, 0]));
    assert!(first.is_some());
    assert!(second.is_some());
    assert_eq!(second.unwrap().keycodes, [5, 0, 0, 0, 0, 0]);
}

#[test]
fn test_report_value_equality() {
    let a = report([4, 0, 0, 0, 0, 0]);
    let b = report([4, 0, 0, 0, 0, 0]);
    let c = report([4, 5, 0, 0, 0, 0]);
    assert!(a == b);
    assert!(a != c);
    let mut shifted = a;
    shifted.modifier = 2;
    assert!(a != shifted);
}

#[test]
fn test_empty_report() {
    let e = KeyboardReport::empty();
    assert_eq!(e.modifier, 0);
    assert_eq!(e.reserved, 0);
    assert_eq!(e.leds, 0);
    assert_eq!(e.keycodes, [0; 6]);
}
