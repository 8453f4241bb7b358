use upward::window::STEP;
use upward::{ChartModel, WindowError};

#[test]
fn advance_keeps_the_last_samples_and_appends_the_new() {
    let mut chart: ChartModel<(f64, f64)> = ChartModel::new(0, 20);
    let seed: Vec<(f64, f64)> = (0..10).map(|i| (i as f64, i as f64 * 2.0)).collect();
    chart.add_series("data", seed.clone(), 5).unwrap();
    let fresh: Vec<(f64, f64)> = (10..15).map(|i| (i as f64, 0.5)).collect();
    let batches = vec![fresh.clone()];
    assert!(chart.can_advance(&batches));
    chart.advance(batches);
    let (window, bounds) = chart.current_view("data").unwrap();
    assert_eq!(window.len(), 10);
    assert_eq!(&window[..5], &seed[5..]);
    assert_eq!(&window[5..], &fresh[..]);
    assert_eq!(bounds, (1, 21));
}

#[test]
fn n_ticks_shift_the_range_by_n() {
    let mut chart: ChartModel<u32> = ChartModel::new(-3, 17);
    chart.add_series("a", vec![1, 2, 3], 1).unwrap();
    chart.add_series("b", vec![10, 20, 30, 40], 2).unwrap();
    for n in 0..7u32 {
        let batches = vec![vec![100 + n], vec![200 + n, 300 + n]];
        assert!(chart.can_advance(&batches));
        chart.advance(batches);
        assert_eq!(chart.bounds(), (-3 + (n as i64 + 1) * STEP, 17 + (n as i64 + 1) * STEP));
        assert_eq!(chart.current_view("a").unwrap().0.len(), 3);
        assert_eq!(chart.current_view("b").unwrap().0.len(), 4);
    }
    assert_eq!(chart.current_view("a").unwrap().0, &vec![104, 105, 106]);
    assert_eq!(chart.current_view("b").unwrap().0, &vec![205, 305, 206, 306]);
}

#[test]
fn seed_replaces_a_window_of_the_same_length() {
    let mut chart: ChartModel<u8> = ChartModel::new(0, 20);
    chart.add_series("a", vec![1, 2, 3], 1).unwrap();
    assert_eq!(chart.seed("a", vec![7, 8, 9]), Ok(()));
    assert_eq!(chart.current_view("a").unwrap().0, &vec![7, 8, 9]);
    assert_eq!(chart.seed("a", vec![7, 8]), Err(WindowError::WrongLength));
    assert_eq!(chart.seed("b", vec![7, 8, 9]), Err(WindowError::UnknownSeries));
    assert_eq!(chart.current_view("a").unwrap().0, &vec![7, 8, 9]);
    assert_eq!(chart.add_series("a", vec![], 0), Err(WindowError::DuplicateSeries));
    assert_eq!(chart.series_count(), 1);
    assert_eq!(chart.batch_of(0), 1);
    assert!(chart.current_view("b").is_none());
}

#[test]
fn underflow_and_wrong_batches_cannot_advance() {
    let mut chart: ChartModel<u8> = ChartModel::new(0, 20);
    chart.add_series("a", vec![1, 2], 3).unwrap();
    assert!(!chart.can_advance(&vec![vec![1, 2, 3]]));
    let mut chart: ChartModel<u8> = ChartModel::new(0, 20);
    chart.add_series("a", vec![1, 2, 3], 2).unwrap();
    assert!(!chart.can_advance(&vec![vec![1]]));
    assert!(!chart.can_advance(&vec![]));
    assert!(!chart.can_advance(&vec![vec![1, 2], vec![]]));
    assert!(chart.can_advance(&vec![vec![1, 2]]));
    let edge: ChartModel<u8> = ChartModel::new(0, i64::MAX);
    assert!(!edge.can_advance(&vec![]));
    let empty: ChartModel<u8> = ChartModel::new(0, 20);
    assert!(empty.can_advance(&vec![]));
}
