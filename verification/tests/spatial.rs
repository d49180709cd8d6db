use spatializer::adapter::{downmix, RenderCall, SpatialProcessor, StereoFrame};
use spatializer::math::{div_trunc, fx_mul, isqrt, SCALE, UNIT_NORM_SQ_MAX, UNIT_NORM_SQ_MIN};
use spatializer::tracker::{find_closest_listener, update_direction};
use spatializer::vec3::FxVec3;

fn fx(units: i64) -> i64 {
    units * SCALE
}

fn v(x: i64, y: i64, z: i64) -> FxVec3 {
    FxVec3 { x, y, z }
}

#[test]
fn isqrt_exact_and_floor() {
    assert_eq!(isqrt(0), 0);
    assert_eq!(isqrt(1), 1);
    assert_eq!(isqrt(24), 4);
    assert_eq!(isqrt(25), 5);
    assert_eq!(isqrt(10_000_000_000_000_000), 100_000_000);
}

#[test]
fn division_truncates_toward_zero() {
    assert_eq!(div_trunc(7, 2), 3);
    assert_eq!(div_trunc(-7, 2), -3);
    assert_eq!(div_trunc(0, 5), 0);
}

#[test]
fn fixed_point_product() {
    assert_eq!(fx_mul(fx(2), 500_000), fx(1));
    assert_eq!(fx_mul(fx(-1), fx(1)), fx(-1));
    assert_eq!(fx_mul(0, fx(3)), 0);
}

#[test]
fn nearest_listener_single() {
    let listeners = vec![v(0, 0, 0)];
    let found = find_closest_listener(v(fx(100), 0, 0), &listeners);
    assert_eq!(found, Some(v(0, 0, 0)));
}

#[test]
fn nearest_listener_picks_minimum() {
    let listeners = vec![v(0, 0, 0), v(fx(10), 0, 0)];
    let found = find_closest_listener(v(fx(9), 0, 0), &listeners);
    assert_eq!(found, Some(v(fx(10), 0, 0)));
}

#[test]
fn nearest_listener_tie_keeps_first() {
    let listeners = vec![v(fx(-3), 0, 0), v(fx(3), 0, 0)];
    let found = find_closest_listener(v(0, 0, 0), &listeners);
    assert_eq!(found, Some(v(fx(-3), 0, 0)));
}

#[test]
fn nearest_listener_none_without_listeners() {
    let listeners: Vec<FxVec3> = vec![];
    assert_eq!(find_closest_listener(v(fx(1), 0, 0), &listeners), None);
}

#[test]
fn update_direction_no_listeners_is_noop() {
    let mut direction = v(5, 6, 7);
    let listeners: Vec<FxVec3> = vec![];
    update_direction(&mut direction, v(fx(2), fx(3), 0), &listeners);
    assert_eq!(direction, v(5, 6, 7));
}

#[test]
fn emitter_far_on_x_axis() {
    let mut direction = v(0, 0, 0);
    let listeners = vec![v(0, 0, 0)];
    update_direction(&mut direction, v(fx(100), 0, 0), &listeners);
    assert_eq!(direction, v(fx(100), 0, 0));
    let unit = direction.normalize_or_zero();
    assert_eq!(unit, v(fx(1), 0, 0));
}

#[test]
fn emitter_between_two_listeners() {
    let mut direction = v(0, 0, 0);
    let listeners = vec![v(0, 0, 0), v(fx(10), 0, 0)];
    update_direction(&mut direction, v(fx(9), 0, 0), &listeners);
    assert_eq!(direction, v(fx(-1), 0, 0));
    let unit = direction.normalize_or_zero();
    assert_eq!(unit, v(fx(-1), 0, 0));
}

#[test]
fn normalize_zero_stays_zero() {
    let unit = v(0, 0, 0).normalize_or_zero();
    assert_eq!(unit, v(0, 0, 0));
}

#[test]
fn normalize_three_four_five() {
    let unit = v(fx(3), fx(4), 0).normalize_or_zero();
    assert_eq!(unit, v(600_000, 800_000, 0));
}

#[test]
fn normalize_smallest_axis_step_is_exact() {
    let unit = v(1, 0, 0).normalize_or_zero();
    assert_eq!(unit, v(fx(1), 0, 0));
}

#[test]
fn normalize_tiny_diagonal_is_near_unit() {
    let unit = v(1, 1, 0).normalize_or_zero();
    assert_eq!(unit, v(707_213, 707_213, 0));
    let norm_sq = unit.x * unit.x + unit.y * unit.y + unit.z * unit.z;
    assert!(UNIT_NORM_SQ_MIN <= norm_sq && norm_sq <= UNIT_NORM_SQ_MAX);
}

#[test]
fn normalized_norm_stays_within_tolerance() {
    for dir in [v(3, 4, 5), v(-7, 2, 9), v(fx(750), fx(-750), fx(750)), v(0, 0, -1)] {
        let unit = dir.normalize_or_zero();
        let norm_sq = unit.x * unit.x + unit.y * unit.y + unit.z * unit.z;
        assert!(UNIT_NORM_SQ_MIN <= norm_sq && norm_sq <= UNIT_NORM_SQ_MAX);
    }
}

#[test]
fn rotation_maps_y_axis_to_x_axis() {
    let rotated = v(0, fx(1), 0).rotate_90(v(0, 0, fx(-1)));
    assert_eq!(rotated, v(fx(1), 0, 0));
}

#[test]
fn rotation_keeps_axis_fixed() {
    let axis = v(0, 0, fx(-1));
    let rotated = v(0, 0, fx(-1)).rotate_90(axis);
    assert_eq!(rotated, v(0, 0, fx(-1)));
}

#[test]
fn downmix_of_identical_channels_is_identity() {
    let channels = vec![700_000i64, 700_000, 700_000, 700_000];
    assert_eq!(downmix(&channels), 700_000);
}

#[test]
fn downmix_of_opposite_channels_cancels() {
    let channels = vec![fx(1), fx(-1)];
    assert_eq!(downmix(&channels), 0);
}

#[test]
fn block_fills_after_capacity_samples() {
    let mut proc = SpatialProcessor::new(4, false);
    let frame = vec![300_000i64, 300_000];
    for _ in 0..3 {
        assert!(proc.push_frame(&frame).is_none());
    }
    assert_eq!(proc.block_len(), 3);
    assert_eq!(proc.queue_len(), 0);
    let call = proc.push_frame(&frame).expect("fourth sample completes the block");
    assert_eq!(call.samples, vec![300_000i64; 4]);
    assert_eq!(call.prev_distance_gain, SCALE);
    assert_eq!(call.new_distance_gain, SCALE);
    assert_eq!(proc.block_len(), 0);
    assert_eq!(proc.queue_len(), 0);
}

#[test]
fn rendered_pairs_queue_and_drain_in_order() {
    let mut proc = SpatialProcessor::new(2, false);
    let rendered = vec![
        StereoFrame { left: 1, right: 2 },
        StereoFrame { left: 3, right: 4 },
        StereoFrame { left: 5, right: 6 },
    ];
    proc.queue_rendered(&rendered);
    assert_eq!(proc.queue_len(), 3);
    let first = proc.drain_output(2);
    assert_eq!(first, vec![StereoFrame { left: 1, right: 2 }, StereoFrame { left: 3, right: 4 }]);
    let second = proc.drain_output(1);
    assert_eq!(second, vec![StereoFrame { left: 5, right: 6 }]);
    assert_eq!(proc.queue_len(), 0);
}

#[test]
fn starved_output_is_padded_with_silence() {
    let mut proc = SpatialProcessor::new(2, false);
    proc.queue_rendered(&vec![StereoFrame { left: 9, right: 9 }]);
    let out = proc.drain_output(4);
    assert_eq!(out[0], StereoFrame { left: 9, right: 9 });
    for frame in &out[1..] {
        assert_eq!(*frame, StereoFrame { left: 0, right: 0 });
    }
    assert_eq!(out.len(), 4);
    assert_eq!(proc.queue_len(), 0);
}

#[test]
fn silent_callback_leaves_state_untouched() {
    let mut proc = SpatialProcessor::new(8, false);
    let frame = vec![fx(1), fx(1)];
    proc.push_frame(&frame);
    proc.push_frame(&frame);
    proc.queue_rendered(&vec![StereoFrame { left: 7, right: 7 }]);
    let out = proc.silent_callback(64);
    assert_eq!(out.len(), 64);
    assert!(out.iter().all(|f| *f == StereoFrame { left: 0, right: 0 }));
    assert_eq!(proc.block_len(), 2);
    assert_eq!(proc.queue_len(), 1);
}

#[test]
fn direction_patch_is_normalized() {
    let mut proc = SpatialProcessor::new(4, false);
    proc.set_direction(v(fx(100), 0, 0));
    assert_eq!(proc.current_direction(), v(fx(1), 0, 0));
    assert_eq!(proc.previous_direction(), v(0, 0, 0));
}

#[test]
fn tiny_direction_patch_stores_near_unit() {
    let mut proc = SpatialProcessor::new(4, false);
    proc.set_direction(v(1, 1, 0));
    let d = proc.current_direction();
    let norm_sq = d.x * d.x + d.y * d.y + d.z * d.z;
    assert!(UNIT_NORM_SQ_MIN <= norm_sq && norm_sq <= UNIT_NORM_SQ_MAX);
}

#[test]
fn direction_patch_rotated_for_azimuth_convention() {
    let mut proc = SpatialProcessor::new(4, true);
    proc.set_direction(v(0, fx(5), 0));
    assert_eq!(proc.current_direction(), v(fx(1), 0, 0));
}

#[test]
fn directions_advance_with_completed_blocks() {
    let mut proc = SpatialProcessor::new(2, false);
    proc.set_direction(v(fx(2), 0, 0));
    let frame = vec![100_000i64];
    assert!(proc.push_frame(&frame).is_none());
    let call = proc.push_frame(&frame).expect("block complete");
    assert_eq!(call.prev_direction, v(0, 0, 0));
    assert_eq!(call.new_direction, v(fx(1), 0, 0));
    assert_eq!(proc.previous_direction(), v(fx(1), 0, 0));
}

#[test]
fn direction_patch_leaves_buffers_untouched() {
    let mut proc = SpatialProcessor::new(4, false);
    let frame = vec![fx(1)];
    proc.push_frame(&frame);
    proc.queue_rendered(&vec![StereoFrame { left: 5, right: 5 }]);
    proc.set_direction(v(0, fx(7), 0));
    assert_eq!(proc.block_len(), 1);
    assert_eq!(proc.queue_len(), 1);
}

#[test]
fn partial_block_carries_over_between_callbacks() {
    let mut proc = SpatialProcessor::new(4, false);
    let first = vec![vec![1i64, 2, 3]];
    assert_eq!(proc.accumulate(&first, 3).len(), 0);
    assert_eq!(proc.block_len(), 3);
    let second = vec![vec![4i64, 5]];
    let calls = proc.accumulate(&second, 2);
    assert_eq!(calls.len(), 1);
    assert_eq!(calls[0].samples, vec![1i64, 2, 3, 4]);
    assert_eq!(proc.block_len(), 1);
}

#[test]
fn accumulate_splits_callback_into_blocks() {
    let mut proc = SpatialProcessor::new(2, false);
    let left = vec![10i64, 20, 30, 40, 50];
    let right = vec![10i64, 20, 30, 40, 50];
    let inputs = vec![left, right];
    let calls: Vec<RenderCall> = proc.accumulate(&inputs, 5);
    assert_eq!(calls.len(), 2);
    assert_eq!(calls[0].samples, vec![10i64, 20]);
    assert_eq!(calls[1].samples, vec![30i64, 40]);
    assert_eq!(proc.block_len(), 1);
    assert_eq!(proc.queue_len(), 0);
}
