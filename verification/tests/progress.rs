use frame_extract::progress::{percentage, ProgressObserver};

#[test]
fn percentage_rounds_down() {
    assert_eq!(percentage(0, 100), 0);
    assert_eq!(percentage(1, 3), 33);
    assert_eq!(percentage(2, 3), 66);
    assert_eq!(percentage(50, 100), 50);
    assert_eq!(percentage(99, 100), 99);
    assert_eq!(percentage(999, 1000), 99);
    assert_eq!(percentage(100, 100), 100);
}

#[test]
fn percentage_stays_within_bounds() {
    assert_eq!(percentage(0, 0), 0);
    assert_eq!(percentage(5, 0), 0);
    assert_eq!(percentage(200, 100), 100);
    assert_eq!(percentage(usize::MAX, usize::MAX), 100);
    assert_eq!(percentage(usize::MAX - 1, usize::MAX), 99);
    assert_eq!(percentage(usize::MAX / 2, usize::MAX), 49);
}

#[test]
fn percentage_never_falls_as_work_goes_on() {
    let total = 977;
    let mut last = 0;
    for current in 0..=total {
        let p = percentage(current, total);
        assert!(p >= last);
        assert!(p <= 100);
        last = p;
    }
    assert_eq!(last, 100);
}

#[test]
fn observer_passes_on_only_higher_percentages() {
    let mut observer = ProgressObserver::new();
    assert_eq!(observer.last(), 0);
    assert_eq!(observer.observe(0), None);
    assert_eq!(observer.observe(1), Some(1));
    assert_eq!(observer.observe(1), None);
    assert_eq!(observer.observe(5), Some(5));
    assert_eq!(observer.observe(3), None);
    assert_eq!(observer.last(), 5);
    assert_eq!(observer.observe(100), Some(100));
    assert_eq!(observer.observe(100), None);
    assert_eq!(observer.last(), 100);
}

#[test]
fn observer_reports_each_percentage_once() {
    let mut observer = ProgressObserver::new();
    let mut reports = Vec::new();
    for current in 0..=1000 {
        if let Some(p) = observer.update(current, 1000) {
            reports.push(p);
        }
    }
    let expected: Vec<usize> = (1..=100).collect();
    assert_eq!(reports, expected);
}
