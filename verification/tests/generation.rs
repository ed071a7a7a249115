use engine2d::generation::Obstacles;

fn shapes() -> Obstacles {
    Obstacles {
        obstacles: vec![(80, 120), (160, 130), (70, 230)],
        frequency_values: vec![2, 1, 3],
    }
}

#[test]
fn lots_are_dealt_out_in_order() {
    let o = shapes();
    assert_eq!(o.shape_for(0), (80, 120));
    assert_eq!(o.shape_for(1), (80, 120));
    assert_eq!(o.shape_for(2), (160, 130));
    assert_eq!(o.shape_for(3), (70, 230));
    assert_eq!(o.shape_for(4), (70, 230));
    assert_eq!(o.shape_for(5), (70, 230));
}

#[test]
fn lots_out_of_range() {
    let o = shapes();
    assert_eq!(o.shape_for(6), (70, 230));
    assert_eq!(o.shape_for(i32::MAX), (70, 230));
    assert_eq!(o.shape_for(-1), (80, 120));
    assert_eq!(o.shape_for(i32::MIN), (80, 120));
}

#[test]
fn shape_of_weight_zero_gets_no_lot() {
    let o = Obstacles { obstacles: vec![(1, 1), (2, 2), (3, 3)], frequency_values: vec![1, 0, 1] };
    assert_eq!(o.shape_for(0), (1, 1));
    assert_eq!(o.shape_for(1), (3, 3));
    let o = Obstacles { obstacles: vec![(1, 1), (2, 2)], frequency_values: vec![0, 4] };
    assert_eq!(o.shape_for(0), (2, 2));
    assert_eq!(o.shape_for(3), (2, 2));
    // A lot below 0 falls to the first shape, whatever its weight.
    assert_eq!(o.shape_for(-5), (1, 1));
}

#[test]
fn more_weights_than_shapes_and_the_other_way_round() {
    let o = Obstacles { obstacles: vec![(1, 1), (2, 2)], frequency_values: vec![1, 1, 5] };
    assert_eq!(o.total_frequency(), Some(7));
    assert_eq!(o.shape_for(1), (2, 2));
    assert_eq!(o.shape_for(2), (2, 2));
    assert_eq!(o.shape_for(6), (2, 2));
    let o = Obstacles { obstacles: vec![(1, 1), (2, 2), (3, 3)], frequency_values: vec![1] };
    assert_eq!(o.shape_for(0), (1, 1));
    assert_eq!(o.shape_for(1), (3, 3));
    let o = Obstacles { obstacles: vec![(1, 1), (2, 2), (3, 3)], frequency_values: vec![] };
    assert_eq!(o.shape_for(0), (3, 3));
    assert_eq!(o.shape_for(-1), (3, 3));
}

#[test]
fn total_frequency_is_the_sum_if_it_fits() {
    assert_eq!(shapes().total_frequency(), Some(6));
    let o = Obstacles { obstacles: vec![], frequency_values: vec![] };
    assert_eq!(o.total_frequency(), Some(0));
    let o = Obstacles { obstacles: vec![], frequency_values: vec![i32::MAX as usize] };
    assert_eq!(o.total_frequency(), Some(i32::MAX));
    let o = Obstacles { obstacles: vec![], frequency_values: vec![i32::MAX as usize, 0, 1] };
    assert_eq!(o.total_frequency(), None);
    let o = Obstacles { obstacles: vec![], frequency_values: vec![usize::MAX, usize::MAX] };
    assert_eq!(o.total_frequency(), None);
}

#[test]
fn readiness() {
    assert!(shapes().is_ready());
    assert!(!Obstacles { obstacles: vec![], frequency_values: vec![1] }.is_ready());
    assert!(!Obstacles { obstacles: vec![(1, 1)], frequency_values: vec![] }.is_ready());
    assert!(!Obstacles { obstacles: vec![(1, 1)], frequency_values: vec![0, 0] }.is_ready());
    assert!(!Obstacles { obstacles: vec![(1, 1)], frequency_values: vec![usize::MAX] }.is_ready());
}

#[test]
fn generated_shape_is_one_with_a_lot() {
    // Three lots for four shapes: the last shape has none, and a draw that
    // came back as the number of lots itself would fall to it.
    let o = Obstacles {
        obstacles: vec![(80, 120), (160, 130), (70, 230), (0, 0)],
        frequency_values: vec![1, 1, 1],
    };
    assert!(o.is_ready());
    let mut seen = [0usize; 3];
    for _ in 0..600 {
        let shape = o.generate_obstacles();
        let k = o.obstacles.iter().position(|s| *s == shape).unwrap();
        assert!(k < 3);
        seen[k] += 1;
    }
    assert!(seen.iter().all(|n| *n > 0));
}

#[test]
fn generated_shape_with_a_single_lot() {
    let o = Obstacles { obstacles: vec![(5, 6), (7, 8)], frequency_values: vec![0, 1] };
    for _ in 0..50 {
        assert_eq!(o.generate_obstacles(), (7, 8));
    }
}
