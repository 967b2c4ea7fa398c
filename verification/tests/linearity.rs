use opensentinel::linearity::analyze_mouse_linearity;
use opensentinel::sample::{MouseSample, SubScore};

fn path(points: &[(i32, i32)]) -> Vec<MouseSample> {
    let mut trace = Vec::new();
    for (i, (x, y)) in points.iter().enumerate() {
        trace.push(MouseSample::new(*x, *y, 16_000 * i as i64));
    }
    trace
}

#[test]
fn paths_too_short_to_judge_are_human() {
    assert_eq!(analyze_mouse_linearity(&path(&[])), SubScore::Human);
    assert_eq!(analyze_mouse_linearity(&path(&[(0, 0)])), SubScore::Human);
    assert_eq!(analyze_mouse_linearity(&path(&[(0, 0), (5_000, 0)])), SubScore::Human);
    // The two ends coincide, but two samples are still too few.
    assert_eq!(analyze_mouse_linearity(&path(&[(7, 7), (7, 7)])), SubScore::Human);
}

#[test]
fn straight_path_is_generated() {
    let mut points = Vec::new();
    for i in 0..11 {
        points.push((3_000 * i, 4_000 * i));
    }
    assert_eq!(analyze_mouse_linearity(&path(&points)), SubScore::Bot);
}

#[test]
fn straight_path_with_uneven_steps_is_generated() {
    let points = [(0, 0), (1_000, -2_000), (1_500, -3_000), (9_000, -18_000), (10_000, -20_000)];
    assert_eq!(analyze_mouse_linearity(&path(&points)), SubScore::Bot);
}

#[test]
fn path_that_ends_where_it_began_is_generated() {
    // A wide loop: every sample is far from its neighbours, yet the chord has no length.
    let mut points = vec![(50_000, 50_000)];
    for i in 1..11 {
        points.push((50_000 + 9_000 * i, 50_000 - 7_000 * i * (11 - i)));
    }
    points.push((50_000, 50_000));
    assert_eq!(points.len(), 12);
    assert_eq!(analyze_mouse_linearity(&path(&points)), SubScore::Bot);
}

#[test]
fn degenerate_line_with_equal_end_timestamps() {
    // Eleven samples whose first and last agree in place and in time.
    let mut trace = Vec::new();
    for i in 0..11i32 {
        let back = if i == 10 { 0 } else { i };
        trace.push(MouseSample::new(1_000 * back, 2_500 * back, 0));
    }
    assert_eq!(trace[0], trace[10]);
    assert_eq!(analyze_mouse_linearity(&trace), SubScore::Bot);
}

#[test]
fn equal_end_timestamps_alone_do_not_make_a_path_generated() {
    // The ends differ in place; only the clock stands still. The arch is 3 px high.
    let mut trace = Vec::new();
    for i in 0..11i32 {
        trace.push(MouseSample::new(10_000 * i, 120 * i * (10 - i), 0));
    }
    assert_eq!(analyze_mouse_linearity(&trace), SubScore::Human);
}

#[test]
fn slight_arc_is_human() {
    // A parabola over a 210 px chord; the mean distance of its thirteen intermediate
    // samples from the chord is 2.31 px.
    let mut points = Vec::new();
    for i in 0..15 {
        points.push((15_000 * i, 66 * i * (14 - i)));
    }
    assert_eq!(analyze_mouse_linearity(&path(&points)), SubScore::Human);
}

#[test]
fn mean_distance_of_exactly_half_a_pixel_is_human() {
    // The two intermediate samples lie 1 px and 0 px off the chord: mean 0.5 px, which is
    // not below the threshold.
    let at = [(0, 0), (1_000, 1_000), (2_000, 0), (3_000, 0)];
    assert_eq!(analyze_mouse_linearity(&path(&at)), SubScore::Human);
    // One thousandth of a pixel less: mean 0.4995 px.
    let under = [(0, 0), (1_000, 999), (2_000, 0), (3_000, 0)];
    assert_eq!(analyze_mouse_linearity(&path(&under)), SubScore::Bot);
    // Which side of the chord a sample lies on does not matter.
    let across = [(0, 0), (1_000, -500), (2_000, 500), (3_000, 0)];
    assert_eq!(analyze_mouse_linearity(&path(&across)), SubScore::Human);
    let across_under = [(0, 0), (1_000, -500), (2_000, 499), (3_000, 0)];
    assert_eq!(analyze_mouse_linearity(&path(&across_under)), SubScore::Bot);
}

#[test]
fn single_intermediate_sample_is_its_own_mean() {
    assert_eq!(
        analyze_mouse_linearity(&path(&[(0, 0), (5_000, 500), (10_000, 0)])),
        SubScore::Human
    );
    assert_eq!(
        analyze_mouse_linearity(&path(&[(0, 0), (5_000, 499), (10_000, 0)])),
        SubScore::Bot
    );
}

#[test]
fn the_two_ends_are_not_averaged() {
    // Eleven samples 10 px apart, five of them 1 px off the chord. The nine intermediate
    // distances have the mean 5/9 = 0.56 px; over all eleven samples it would be 0.45 px.
    let heights = [0, 1, 1, 1, 1, 1, 0, 0, 0, 0, 0];
    let points: Vec<(i32, i32)> =
        heights.iter().enumerate().map(|(i, y)| (10_000 * i as i32, 1_000 * y)).collect();
    assert_eq!(analyze_mouse_linearity(&path(&points)), SubScore::Human);
    // With four of them off the chord the mean is 4/9 = 0.44 px.
    let heights = [0, 1, 1, 1, 1, 0, 0, 0, 0, 0, 0];
    let points: Vec<(i32, i32)> =
        heights.iter().enumerate().map(|(i, y)| (10_000 * i as i32, 1_000 * y)).collect();
    assert_eq!(analyze_mouse_linearity(&path(&points)), SubScore::Bot);
}

#[test]
fn sample_far_from_a_short_chord_is_human() {
    assert_eq!(
        analyze_mouse_linearity(&path(&[(0, 0), (0, 1_000_000), (1_000, 0)])),
        SubScore::Human
    );
}

#[test]
fn coordinates_at_the_ends_of_their_range() {
    let low = i32::MIN;
    let high = i32::MAX;
    // Along the diagonal of the whole plane.
    assert_eq!(
        analyze_mouse_linearity(&path(&[(low, low), (0, 0), (high, high)])),
        SubScore::Bot
    );
    // 707 units off the diagonal at its middle is 499.9 units from it.
    assert_eq!(
        analyze_mouse_linearity(&path(&[(low, low), (0, 707), (high, high)])),
        SubScore::Bot
    );
    // 708 units off is 500.6 units from it.
    assert_eq!(
        analyze_mouse_linearity(&path(&[(low, low), (0, 708), (high, high)])),
        SubScore::Human
    );
    // Through the far corner.
    assert_eq!(
        analyze_mouse_linearity(&path(&[(low, low), (low, high), (high, high)])),
        SubScore::Human
    );
}
