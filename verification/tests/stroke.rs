use inkstroke::resolution::TessellationConfig;
use inkstroke::stroke::Action;
use inkstroke::stroke::ContractViolation;
use inkstroke::stroke::Phase;
use inkstroke::stroke::Stroke;
use inkstroke::stroke::StrokeState;

type Plain = Stroke<(i32, i32), [i32; 3]>;

fn fresh() -> Plain {
    Stroke::new(TessellationConfig::standard(), 8, [0, 0, 0])
}

fn push_all(stroke: &mut Plain, points: &[(i32, i32)]) {
    for point in points {
        assert_eq!(stroke.push_point(*point), Ok(()));
    }
}

fn zigzag(from: i32, to: i32) -> Vec<(i32, i32)> {
    (from..to).map(|i| (i, i % 2)).collect()
}

#[test]
fn fresh_stroke_is_empty() {
    let stroke = fresh();
    assert_eq!(stroke.state(), StrokeState::Empty);
    assert_eq!(stroke.phase(), Phase::Idle);
    assert!(stroke.points().is_empty());
    assert_eq!(stroke.pending_len(), 0);
    assert_eq!(stroke.processed_up_to(), 0);
    assert!(!stroke.is_finalized());
    assert!(!stroke.is_ready());
    assert_eq!(stroke.buffer().capacity(), 8);
    assert_eq!(stroke.buffer().used(), 0);
    assert_eq!(stroke.config().min_points, 4);
    let (positions, indices, used) = stroke.get_buffer();
    assert_eq!(positions.len(), 8);
    assert!(indices.is_empty());
    assert_eq!(used, 0);
}

#[test]
fn pushed_points_wait_in_the_queue_until_an_update() {
    let mut stroke = fresh();
    push_all(&mut stroke, &[(0, 0), (1, 1)]);
    assert_eq!(stroke.state(), StrokeState::Accumulating);
    assert_eq!(stroke.pending_len(), 2);
    assert!(stroke.points().is_empty());
    assert_eq!(stroke.begin_update(), Ok(Action::Wait));
    assert_eq!(stroke.phase(), Phase::Idle);
    assert_eq!(stroke.pending_len(), 0);
    assert_eq!(stroke.points(), &[(0, 0), (1, 1)]);
    assert_eq!(stroke.state(), StrokeState::Accumulating);
}

#[test]
fn three_points_are_too_few_for_a_curve() {
    let mut stroke = fresh();
    push_all(&mut stroke, &[(0, 0), (1, 1), (2, 0)]);
    assert_eq!(stroke.begin_update(), Ok(Action::Wait));
    assert!(!stroke.is_ready());
    assert_eq!(stroke.get_buffer().2, 0);
    assert_eq!(stroke.processed_up_to(), 0);
    assert_eq!(stroke.points().len(), 3);
}

#[test]
fn four_points_ask_for_a_fit_of_the_whole_window() {
    let mut stroke = fresh();
    push_all(&mut stroke, &[(0, 0), (1, 1), (2, 0), (3, 1)]);
    assert_eq!(stroke.begin_update(), Ok(Action::Fit { start: 0, end: 4 }));
    assert_eq!(stroke.phase(), Phase::Fitting);
    assert!(stroke.is_ready());
    assert_eq!(stroke.window(), &[(0, 0), (1, 1), (2, 0), (3, 1)]);
}

#[test]
fn a_reported_fit_asks_for_the_resolution_on_every_segment() {
    let mut stroke = fresh();
    push_all(&mut stroke, &zigzag(0, 4));
    assert_eq!(stroke.begin_update(), Ok(Action::Fit { start: 0, end: 4 }));
    assert!(stroke.can_plan(&[2, 2, 2], 3));
    assert_eq!(stroke.fitted(&[2, 2, 2], 3), Ok(3));
    assert_eq!(stroke.phase(), Phase::Sampling { count: 3 });

    let mut stroke = fresh();
    push_all(&mut stroke, &zigzag(0, 5));
    assert_eq!(stroke.begin_update(), Ok(Action::Fit { start: 0, end: 5 }));
    assert_eq!(stroke.fitted(&[2, 19, 400, 7], 4), Ok(48));

    let mut stroke = fresh();
    push_all(&mut stroke, &zigzag(0, 5));
    assert_eq!(stroke.begin_update(), Ok(Action::Fit { start: 0, end: 5 }));
    assert_eq!(stroke.fitted(&[2, 19, 7, 7], 4), Ok(24));
}

#[test]
fn commit_appends_the_samples_and_moves_the_watermark_to_the_last_point() {
    let mut stroke = fresh();
    push_all(&mut stroke, &[(0, 0), (1, 1), (2, 0), (3, 1)]);
    assert_eq!(stroke.begin_update(), Ok(Action::Fit { start: 0, end: 4 }));
    assert_eq!(stroke.fitted(&[2, 2, 2], 3), Ok(3));
    assert!(stroke.can_commit(3));
    assert_eq!(stroke.commit(&[[0, 0, 0], [1, 5, 0], [3, 1, 0]]), Ok(()));
    assert_eq!(stroke.phase(), Phase::Idle);
    assert_eq!(stroke.processed_up_to(), 3);
    assert_eq!(stroke.state(), StrokeState::Committed);
    let (positions, indices, used) = stroke.get_buffer();
    assert_eq!(used, 3);
    assert_eq!(&positions[..used], &[[0, 0, 0], [1, 5, 0], [3, 1, 0]]);
    assert_eq!(indices, &[0, 1, 2]);
    assert_eq!(stroke.window(), &[(3, 1)]);
    assert_eq!(stroke.points().len(), 4);
}

#[test]
fn the_next_window_starts_at_the_last_point_of_the_one_before() {
    let mut stroke = fresh();
    push_all(&mut stroke, &[(0, 0), (1, 1), (2, 0), (3, 1)]);
    assert_eq!(stroke.begin_update(), Ok(Action::Fit { start: 0, end: 4 }));
    assert_eq!(stroke.fitted(&[2, 2, 2], 3), Ok(3));
    assert_eq!(stroke.commit(&[[0, 0, 0], [1, 1, 0], [3, 1, 0]]), Ok(()));
    push_all(&mut stroke, &[(4, 0), (5, 1)]);
    assert_eq!(stroke.state(), StrokeState::Accumulating);
    assert_eq!(stroke.begin_update(), Ok(Action::Wait));
    assert_eq!(stroke.window(), &[(3, 1), (4, 0), (5, 1)]);
    push_all(&mut stroke, &[(6, 0)]);
    assert_eq!(stroke.begin_update(), Ok(Action::Fit { start: 3, end: 7 }));
    assert_eq!(stroke.window(), &[(3, 1), (4, 0), (5, 1), (6, 0)]);
    assert_eq!(stroke.fitted(&[2, 2, 2], 3), Ok(3));
    assert_eq!(stroke.commit(&[[4, 0, 0], [5, 1, 0], [6, 0, 0]]), Ok(()));
    assert_eq!(stroke.processed_up_to(), 6);
    let (positions, indices, used) = stroke.get_buffer();
    assert_eq!(used, 6);
    assert_eq!(
        &positions[..used],
        &[[0, 0, 0], [1, 1, 0], [3, 1, 0], [4, 0, 0], [5, 1, 0], [6, 0, 0]]
    );
    assert_eq!(indices, &[0, 1, 2, 3, 4, 5]);
}

#[test]
fn a_fit_that_fails_loses_nothing_and_is_asked_for_again() {
    let mut stroke = fresh();
    push_all(&mut stroke, &[(0, 0), (0, 0), (0, 0), (0, 0)]);
    assert_eq!(stroke.begin_update(), Ok(Action::Fit { start: 0, end: 4 }));
    assert_eq!(stroke.begin_update(), Ok(Action::Fit { start: 0, end: 4 }));
    push_all(&mut stroke, &[(1, 1)]);
    assert_eq!(stroke.begin_update(), Ok(Action::Fit { start: 0, end: 5 }));
    assert_eq!(stroke.points().len(), 5);
    assert_eq!(stroke.pending_len(), 0);
    assert_eq!(stroke.get_buffer().2, 0);
}

#[test]
fn an_update_that_begins_anew_drops_the_samples_asked_for() {
    let mut stroke = fresh();
    push_all(&mut stroke, &zigzag(0, 4));
    assert_eq!(stroke.begin_update(), Ok(Action::Fit { start: 0, end: 4 }));
    assert_eq!(stroke.fitted(&[2, 2, 2], 3), Ok(3));
    assert_eq!(stroke.begin_update(), Ok(Action::Fit { start: 0, end: 4 }));
    assert_eq!(stroke.phase(), Phase::Fitting);
    assert_eq!(stroke.commit(&[[0, 0, 0]; 3]), Err(ContractViolation::OutOfTurn));
    assert_eq!(stroke.get_buffer().2, 0);
}

#[test]
fn steps_that_the_update_did_not_ask_for_are_violations() {
    let mut stroke = fresh();
    assert_eq!(stroke.fitted(&[], 0), Err(ContractViolation::OutOfTurn));
    assert_eq!(stroke.commit(&[]), Err(ContractViolation::OutOfTurn));
    push_all(&mut stroke, &[(0, 0), (1, 1), (2, 0)]);
    assert_eq!(stroke.begin_update(), Ok(Action::Wait));
    assert_eq!(stroke.fitted(&[2, 2], 2), Err(ContractViolation::OutOfTurn));
    assert_eq!(stroke.commit(&[[0, 0, 0]]), Err(ContractViolation::OutOfTurn));
    push_all(&mut stroke, &[(3, 1)]);
    assert_eq!(stroke.begin_update(), Ok(Action::Fit { start: 0, end: 4 }));
    assert_eq!(stroke.commit(&[[0, 0, 0]; 3]), Err(ContractViolation::OutOfTurn));
    assert_eq!(stroke.fitted(&[2, 2, 2], 3), Ok(3));
    assert_eq!(stroke.fitted(&[2, 2, 2], 3), Err(ContractViolation::OutOfTurn));
    assert_eq!(stroke.phase(), Phase::Sampling { count: 3 });
    assert_eq!(stroke.get_buffer().2, 0);
    assert_eq!(stroke.processed_up_to(), 0);
    assert_eq!(stroke.points().len(), 4);
}

#[test]
fn samples_must_be_as_many_as_were_asked_for() {
    let mut stroke = fresh();
    push_all(&mut stroke, &zigzag(0, 4));
    assert_eq!(stroke.begin_update(), Ok(Action::Fit { start: 0, end: 4 }));
    assert_eq!(stroke.fitted(&[2, 2, 2], 3), Ok(3));
    assert_eq!(stroke.commit(&[[0, 0, 0]; 2]), Err(ContractViolation::SampleCount));
    assert_eq!(stroke.commit(&[[0, 0, 0]; 4]), Err(ContractViolation::SampleCount));
    assert_eq!(stroke.commit(&[]), Err(ContractViolation::SampleCount));
    assert_eq!(stroke.get_buffer().2, 0);
    assert_eq!(stroke.processed_up_to(), 0);
    assert_eq!(stroke.phase(), Phase::Sampling { count: 3 });
    assert_eq!(stroke.commit(&[[7, 7, 7]; 3]), Ok(()));
    assert_eq!(stroke.get_buffer().2, 3);
}

#[test]
fn a_closed_stroke_refuses_points_and_keeps_its_own() {
    let mut stroke = fresh();
    push_all(&mut stroke, &[(0, 0), (1, 1), (2, 0), (3, 1)]);
    assert_eq!(stroke.begin_update(), Ok(Action::Fit { start: 0, end: 4 }));
    assert_eq!(stroke.fitted(&[2, 2, 2], 3), Ok(3));
    assert_eq!(stroke.commit(&[[0, 0, 0], [1, 1, 0], [3, 1, 0]]), Ok(()));
    stroke.close();
    assert_eq!(stroke.state(), StrokeState::Finalized);
    assert!(stroke.is_finalized());
    assert_eq!(stroke.push_point((9, 9)), Err(ContractViolation::StrokeFinalized));
    assert_eq!(stroke.points(), &[(0, 0), (1, 1), (2, 0), (3, 1)]);
    assert_eq!(stroke.pending_len(), 0);
    assert_eq!(stroke.get_buffer().2, 3);
}

#[test]
fn a_closed_stroke_refuses_updates() {
    let mut stroke = fresh();
    push_all(&mut stroke, &zigzag(0, 5));
    stroke.close();
    assert_eq!(stroke.begin_update(), Err(ContractViolation::StrokeFinalized));
    assert_eq!(stroke.fitted(&[2, 2, 2, 2], 4), Err(ContractViolation::StrokeFinalized));
    assert_eq!(stroke.commit(&[[0, 0, 0]]), Err(ContractViolation::StrokeFinalized));
    assert_eq!(stroke.pending_len(), 5);
    assert!(stroke.points().is_empty());
    assert_eq!(stroke.get_buffer().2, 0);
    assert!(!stroke.is_ready());
    stroke.close();
    assert_eq!(stroke.state(), StrokeState::Finalized);
}

#[test]
fn a_stroke_closed_in_the_middle_of_an_update_refuses_the_rest() {
    let mut stroke = fresh();
    push_all(&mut stroke, &zigzag(0, 4));
    assert_eq!(stroke.begin_update(), Ok(Action::Fit { start: 0, end: 4 }));
    assert_eq!(stroke.fitted(&[2, 2, 2], 3), Ok(3));
    stroke.close();
    assert_eq!(stroke.commit(&[[0, 0, 0]; 3]), Err(ContractViolation::StrokeFinalized));
    assert_eq!(stroke.get_buffer().2, 0);
    assert_eq!(stroke.points().len(), 4);
}

#[test]
fn the_window_threshold_follows_the_tuning() {
    let config = TessellationConfig { min_points: 2, ..TessellationConfig::standard() };
    let mut stroke: Stroke<u8, u8> = Stroke::new(config, 0, 0);
    assert_eq!(stroke.push_point(1), Ok(()));
    assert_eq!(stroke.begin_update(), Ok(Action::Wait));
    assert_eq!(stroke.push_point(2), Ok(()));
    assert_eq!(stroke.begin_update(), Ok(Action::Fit { start: 0, end: 2 }));
    assert_eq!(stroke.fitted(&[1], 1), Ok(1));
    assert_eq!(stroke.commit(&[9]), Ok(()));
    assert_eq!(stroke.processed_up_to(), 1);
    assert_eq!(stroke.get_buffer().2, 1);
    assert_eq!(stroke.state(), StrokeState::Committed);
}

#[test]
fn the_mesh_grows_with_the_stroke() {
    let mut stroke: Stroke<u8, u16> = Stroke::new(TessellationConfig::standard(), 8, 0);
    for point in 0..5u8 {
        assert_eq!(stroke.push_point(point), Ok(()));
    }
    assert_eq!(stroke.begin_update(), Ok(Action::Fit { start: 0, end: 5 }));
    assert_eq!(stroke.fitted(&[15, 15, 15, 15], 4), Ok(20));
    let samples: Vec<u16> = (0..20).collect();
    assert_eq!(stroke.commit(&samples), Ok(()));
    let (positions, indices, used) = stroke.get_buffer();
    assert_eq!(used, 20);
    assert_eq!(positions.len(), 20);
    assert_eq!(indices.len(), 20);
    assert_eq!(indices[19], 19);
}
