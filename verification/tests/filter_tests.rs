use kalman_filter::{KalmanFilter, Rat};

fn r(n: i128) -> Rat {
    Rat::new(n, 1)
}

fn assert_rat(v: Rat, num: i128, den: i128) {
    assert!(v.den > 0);
    assert_eq!(v.num * den, num * v.den);
}

#[test]
fn predict_state() {
    let transition_model = vec![vec![r(2)]];
    let measurement_model = vec![vec![r(1)]];
    let measurement_noise = vec![vec![r(2)]];

    let filter = KalmanFilter::new(transition_model, measurement_model, measurement_noise);

    let initial_state = vec![r(1)];
    let initial_covariance = vec![vec![r(1)]];
    let pred_result = filter.predict((initial_state, initial_covariance), r(1), None);

    assert!(pred_result.is_ok());
    if let Ok((state, cov)) = pred_result {
        assert_rat(state[0], 2, 1);
        assert_rat(cov[0][0], 6, 1);
    }

    // time not moving strictly forward shall return an error
    let initial_state = vec![r(1)];
    let initial_covariance = vec![vec![r(1)]];
    let pred_result = filter.predict((initial_state, initial_covariance), r(-1), None);
    assert!(pred_result.is_err());
}

#[test]
fn with_input_model() {
    let transition_model = vec![vec![r(2)]];
    let measurement_model = vec![vec![r(1)]];
    let measurement_noise = vec![vec![r(2)]];

    let filter = KalmanFilter::new(transition_model, measurement_model, measurement_noise)
        .with_input_model(vec![vec![r(1), r(2)]]);

    let initial_state = vec![r(1)];
    let initial_covariance = vec![vec![r(1)]];
    let (state, cov) = filter
        .predict((initial_state, initial_covariance), r(1), None)
        .unwrap();

    assert_rat(state[0], 2, 1);
    assert_rat(cov[0][0], 6, 1);

    let initial_state = vec![r(1)];
    let initial_covariance = vec![vec![r(1)]];
    let (state, cov) = filter
        .predict(
            (initial_state, initial_covariance),
            r(1),
            Some(vec![r(1), r(1)]),
        )
        .unwrap();

    assert_rat(state[0], 5, 1);
    assert_rat(cov[0][0], 6, 1);
}

#[test]
fn update_state() {
    let transition_model = vec![vec![r(3), r(0)], vec![r(0), r(3)]];
    let measurement_model = vec![vec![r(1), r(1)]];
    let transition_noise = vec![vec![r(2), r(0)], vec![r(0), r(2)]];

    let filter = KalmanFilter::new(transition_model, measurement_model, transition_noise);

    let initial_state = vec![r(1), r(2)];
    let initial_covariance = vec![vec![r(1), r(0)], vec![r(0), r(1)]];
    let observation = (vec![r(2)], vec![vec![r(2)]]);

    let pred_result = filter.update((initial_state, initial_covariance), observation);
    assert!(pred_result.is_ok());
    if let Ok((state, cov)) = pred_result {
        // the covariance is symmetric 2x2, so its eigenvalues are real and
        // sum to the trace; trace 3/2 > 0 and determinant 1/2 > 0
        let trace_num = cov[0][0].num * cov[1][1].den + cov[1][1].num * cov[0][0].den;
        assert!(trace_num > 0);
        let det_lhs = cov[0][0].num * cov[1][1].num * cov[0][1].den * cov[1][0].den;
        let det_rhs = cov[0][1].num * cov[1][0].num * cov[0][0].den * cov[1][1].den;
        assert!(det_lhs > det_rhs);

        assert_rat(state[0], 3, 4);
        assert_rat(state[1], 7, 4);
        assert_rat(cov[0][0], 3, 4);
        assert_rat(cov[0][1], -1, 4);
        assert_rat(cov[1][0], -1, 4);
        assert_rat(cov[1][1], 3, 4);
    }
}
