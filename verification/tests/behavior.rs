use kalman_filter::{KalmanFilter, Rat, State};

fn r(n: i128) -> Rat {
    Rat::new(n, 1)
}

fn assert_rat(v: Rat, num: i128, den: i128) {
    assert!(v.den > 0);
    assert_eq!(v.num * den, num * v.den);
}

fn same(a: Rat, b: Rat) -> bool {
    a.num * b.den == b.num * a.den
}

#[test]
fn update_singular_innovation() {
    // a zero measurement model and zero measurement noise make the
    // innovation covariance singular: no partial update happens
    let transition_model = vec![vec![r(1), r(0)], vec![r(0), r(1)]];
    let measurement_model = vec![vec![r(0), r(0)]];
    let process_noise = vec![vec![r(1), r(0)], vec![r(0), r(1)]];

    let filter = KalmanFilter::new(transition_model, measurement_model, process_noise);

    let state = vec![r(1), r(2)];
    let covariance = vec![vec![r(1), r(0)], vec![r(0), r(1)]];
    let observation = (vec![r(2)], vec![vec![r(0)]]);

    let result = filter.update((state, covariance), observation);
    assert!(result.is_err());
}

#[test]
fn predict_rejects_zero_dt() {
    let filter = KalmanFilter::new(
        vec![vec![r(2)]],
        vec![vec![r(1)]],
        vec![vec![r(2)]],
    );
    assert!(filter
        .predict((vec![r(1)], vec![vec![r(1)]]), r(0), None)
        .is_err());
    assert!(filter
        .predict((vec![r(1)], vec![vec![r(1)]]), Rat::new(-3, 7), None)
        .is_err());
}

#[test]
fn predict_is_pure_and_deterministic() {
    let filter = KalmanFilter::new(
        vec![vec![r(2)]],
        vec![vec![r(1)]],
        vec![vec![r(2)]],
    );
    let a = filter
        .predict((vec![r(1)], vec![vec![r(1)]]), Rat::new(1, 2), None)
        .unwrap();
    let b = filter
        .predict((vec![r(1)], vec![vec![r(1)]]), Rat::new(1, 2), None)
        .unwrap();
    assert_eq!(a.0[0].num, b.0[0].num);
    assert_eq!(a.0[0].den, b.0[0].den);
    assert_eq!(a.1[0][0].num, b.1[0][0].num);
    assert_eq!(a.1[0][0].den, b.1[0][0].den);
    // the filter's own committed state is untouched by predict
    assert_rat(filter.state[0], 0, 1);
    assert_rat(filter.covariance[0][0], 1, 1);
}

#[test]
fn predicted_covariance_is_symmetric() {
    // symmetric covariance and process noise give a symmetric prediction
    let filter = KalmanFilter::new(
        vec![vec![r(1), r(2)], vec![r(3), r(4)]],
        vec![vec![r(1), r(0)]],
        vec![vec![r(1), r(0)], vec![r(0), r(1)]],
    );
    let p = vec![vec![r(2), r(1)], vec![r(1), r(5)]];
    let (_, cov) = filter.predict((vec![r(1), r(1)], p), r(1), None).unwrap();
    assert!(same(cov[0][1], cov[1][0]));
}

#[test]
fn step_commits_only_on_success() {
    let filter = KalmanFilter::new(
        vec![vec![r(2)]],
        vec![vec![r(1)]],
        vec![vec![r(2)]],
    );
    let mut filter = filter.with_state(vec![r(1)], vec![vec![r(1)]]);

    // failing dt: the committed state stays exactly as it was
    let result = filter.step(r(0), (vec![r(2)], vec![vec![r(2)]]), None);
    assert!(result.is_err());
    assert_rat(filter.state[0], 1, 1);
    assert_rat(filter.covariance[0][0], 1, 1);

    // step equals predict then update on the filter's current state
    let predicted = filter
        .predict((vec![r(1)], vec![vec![r(1)]]), r(1), None)
        .unwrap();
    let expected = filter
        .update(predicted, (vec![r(2)], vec![vec![r(2)]]))
        .unwrap();

    let stepped = filter.step(r(1), (vec![r(2)], vec![vec![r(2)]]), None).unwrap();
    assert!(same(stepped.0[0], expected.0[0]));
    assert!(same(stepped.1[0][0], expected.1[0][0]));
    // and commits the pair
    assert!(same(filter.state[0], expected.0[0]));
    assert!(same(filter.covariance[0][0], expected.1[0][0]));

    // predicted state 2, covariance 6; innovation 0, S = 8, K = 6/8,
    // corrected state 2, covariance (1 - 6/8) * 6 = 3/2
    assert_rat(filter.state[0], 2, 1);
    assert_rat(filter.covariance[0][0], 3, 2);
}

#[test]
fn new_defaults() {
    let filter = KalmanFilter::new(
        vec![vec![r(2), r(0)], vec![r(0), r(2)]],
        vec![vec![r(1), r(1)]],
        vec![vec![r(1), r(0)], vec![r(0), r(1)]],
    );
    // zero state, identity covariance, zero control mapping
    assert_rat(filter.state[0], 0, 1);
    assert_rat(filter.state[1], 0, 1);
    assert_rat(filter.covariance[0][0], 1, 1);
    assert_rat(filter.covariance[0][1], 0, 1);
    assert_rat(filter.covariance[1][0], 0, 1);
    assert_rat(filter.covariance[1][1], 1, 1);
    assert_rat(filter.input_model[0][0], 0, 1);
    assert_rat(filter.input_model[1][0], 0, 1);
}

#[test]
fn default_filter_and_state() {
    let filter = KalmanFilter::default();
    assert_rat(filter.transition_model[0][0], 1, 1);
    assert_rat(filter.measurement_model[0][0], 0, 1);
    assert_rat(filter.process_noise[0][0], 1, 1);
    assert_rat(filter.state[0], 0, 1);
    assert_rat(filter.covariance[0][0], 1, 1);

    let state = State::default();
    assert_rat(state.estimate[0], 0, 1);
    assert_rat(state.covariance[0][0], 1, 1);

    let packed = State::new((vec![r(7)], vec![vec![r(3)]]));
    assert_rat(packed.estimate[0], 7, 1);
    assert_rat(packed.covariance[0][0], 3, 1);
}

#[test]
fn step_leaves_state_on_singular_innovation() {
    // zero measurement model and zero measurement noise: predict succeeds,
    // update fails, and nothing is committed
    let filter = KalmanFilter::new(
        vec![vec![r(2)]],
        vec![vec![r(0)]],
        vec![vec![r(2)]],
    );
    let mut filter = filter.with_state(vec![r(1)], vec![vec![r(1)]]);
    let result = filter.step(r(1), (vec![r(2)], vec![vec![r(0)]]), None);
    assert!(result.is_err());
    assert_rat(filter.state[0], 1, 1);
    assert_rat(filter.covariance[0][0], 1, 1);
}

#[test]
fn step_with_control() {
    // predicted state 2*1 + [1 2]*[1 1] = 5, covariance 6; innovation
    // 2 - 5 = -3, S = 8, K = 6/8, corrected state 5 - 18/8 = 11/4,
    // covariance (1 - 6/8) * 6 = 3/2
    let filter = KalmanFilter::new(
        vec![vec![r(2)]],
        vec![vec![r(1)]],
        vec![vec![r(2)]],
    )
    .with_input_model(vec![vec![r(1), r(2)]]);
    let mut filter = filter.with_state(vec![r(1)], vec![vec![r(1)]]);
    let (state, cov) = filter
        .step(r(1), (vec![r(2)], vec![vec![r(2)]]), Some(vec![r(1), r(1)]))
        .unwrap();
    assert_rat(state[0], 11, 4);
    assert_rat(cov[0][0], 3, 2);
    assert_rat(filter.state[0], 11, 4);
    assert_rat(filter.covariance[0][0], 3, 2);
}
