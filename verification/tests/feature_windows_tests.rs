use car_logger::feature_windows::{fillable_gaps, window_offsets};

#[test]
fn windows_start_every_stride_while_a_minute_fits() {
    assert_eq!(window_offsets(59, true), Vec::<usize>::new());
    assert_eq!(window_offsets(60, true), vec![0]);
    assert_eq!(window_offsets(70, true), vec![0, 10]);
    assert_eq!(window_offsets(79, true), vec![0, 10]);
    assert_eq!(window_offsets(70, false), vec![0, 5, 10]);
    assert_eq!(window_offsets(0, false), Vec::<usize>::new());
}

#[test]
fn interpolation_fills_short_gaps_between_observations() {
    // Observed at 0..=1 and 5.., missing 2..=4: three seconds between values.
    let mut present = vec![true; 10];
    for i in 2..=4 {
        present[i] = false;
    }
    assert_eq!(fillable_gaps(&present, 5, false), vec![(2, 5)]);
    // Seven missing seconds exceed the fast-signal limit but not the slow one.
    let mut present = vec![true; 12];
    for i in 2..=8 {
        present[i] = false;
    }
    assert_eq!(fillable_gaps(&present, 5, false), Vec::<(usize, usize)>::new());
    assert_eq!(fillable_gaps(&present, 10, true), vec![(2, 9)]);
}

#[test]
fn gaps_at_the_edges() {
    let present = vec![false, false, true, false, true, false];
    assert_eq!(fillable_gaps(&present, 5, false), vec![(3, 4)]);
    assert_eq!(fillable_gaps(&present, 5, true), vec![(3, 4), (5, 6)]);
    assert_eq!(fillable_gaps(&[], 5, true), Vec::<(usize, usize)>::new());
}
