use evolution_origin::map::{classify, is_bot_spawn, is_obstacle, Cell};

#[test]
fn origin_is_empty() {
    assert!(!is_obstacle(0, 0));
    assert!(!is_bot_spawn(0, 0));
    assert_eq!(classify(0, 0), Cell::Empty);
}

#[test]
fn neighbours_of_origin_are_free() {
    assert!(!is_obstacle(1, 0));
    assert!(!is_obstacle(0, 1));
    assert!(!is_obstacle(-1, 0));
    assert!(!is_obstacle(0, -1));
}

#[test]
fn obstacles_around_origin() {
    let expected: Vec<(i64, i64)> = vec![
        (-12, -10),
        (-12, 11),
        (-11, 11),
        (-9, 2),
        (-9, 9),
        (-7, -4),
        (-7, 12),
        (-4, 11),
        (-3, 9),
        (0, -9),
        (5, 12),
        (6, -8),
        (8, -7),
        (8, -1),
        (10, 0),
        (11, -7),
    ];
    let mut found: Vec<(i64, i64)> = Vec::new();
    for x in -12..=12 {
        for y in -12..=12 {
            if is_obstacle(x, y) {
                found.push((x, y));
            }
        }
    }
    assert_eq!(found, expected);
}

#[test]
fn anchors_around_origin() {
    let expected: Vec<(i64, i64)> = vec![
        (-40, 32),
        (-39, 5),
        (-38, -24),
        (-37, 27),
        (-29, 38),
        (-27, 18),
        (-24, -20),
        (-15, -35),
        (-15, 39),
        (-14, -34),
        (-14, 21),
        (-11, -6),
        (-9, -19),
        (-5, 14),
        (-1, 25),
        (1, -25),
        (5, -16),
        (9, 19),
        (11, 4),
        (14, -23),
        (14, 34),
        (15, -39),
        (15, 35),
        (24, 28),
        (27, -20),
        (29, -40),
        (38, 20),
        (39, -5),
    ];
    let mut found: Vec<(i64, i64)> = Vec::new();
    for x in -40..=40 {
        for y in -40..=40 {
            if is_bot_spawn(x, y) {
                found.push((x, y));
            }
        }
    }
    assert_eq!(found, expected);
}

#[test]
fn classify_names_the_rule_that_holds() {
    assert_eq!(classify(10, 0), Cell::Obstacle);
    assert_eq!(classify(-9, 2), Cell::Obstacle);
    assert_eq!(classify(11, 4), Cell::BotAnchor);
    assert_eq!(classify(-11, -6), Cell::BotAnchor);
    assert_eq!(classify(3, 3), Cell::Empty);
    assert_eq!(classify(1, 0), Cell::Empty);
}

#[test]
fn far_corners_of_the_grid() {
    assert!(is_obstacle(9223372036854775748, -24));
    assert!(is_obstacle(9223372036854775748, 15));
    assert!(!is_obstacle(i64::MAX, i64::MAX));
    assert!(!is_obstacle(i64::MIN, i64::MIN));
    assert!(is_bot_spawn(i64::MIN, i64::MIN));
    assert!(is_bot_spawn(-9223372036854775807, 99));
    assert!(!is_bot_spawn(i64::MIN, i64::MAX));
    assert!(!is_obstacle(1_000_000_000_000, -1_000_000_000_000));
    assert_eq!(classify(i64::MIN, i64::MIN), Cell::BotAnchor);
}

#[test]
fn repeated_calls_agree() {
    for x in -30..30 {
        for y in -30..30 {
            let first = classify(x * 7919, y * 104729);
            let second = classify(x * 7919, y * 104729);
            assert_eq!(first, second);
            assert_eq!(is_obstacle(x, y), is_obstacle(x, y));
            assert_eq!(is_bot_spawn(x, y), is_bot_spawn(x, y));
        }
    }
}

#[test]
fn no_anchor_in_the_square_around_origin() {
    for x in -9..=9 {
        for y in -9..=9 {
            assert!(!is_bot_spawn(x, y));
            assert_ne!(classify(x, y), Cell::BotAnchor);
        }
    }
}

#[test]
fn obstacle_and_anchor_exclude_each_other() {
    for x in -200..200 {
        for y in -200..200 {
            assert!(!(is_obstacle(x, y) && is_bot_spawn(x, y)));
            let cell = classify(x, y);
            assert_eq!(cell == Cell::Obstacle, is_obstacle(x, y));
            assert_eq!(cell == Cell::BotAnchor, is_bot_spawn(x, y));
        }
    }
}

#[test]
fn densities_over_a_large_sample() {
    let samples: u64 = 100_000;
    let mut state: u64 = 12345;
    let mut obstacles: u64 = 0;
    let mut anchors: u64 = 0;
    let mut taken: u64 = 0;
    while taken < samples {
        state = state.wrapping_mul(6364136223846793005).wrapping_add(1442695040888963407);
        let x = ((state >> 33) % 2_000_001) as i64 - 1_000_000;
        state = state.wrapping_mul(6364136223846793005).wrapping_add(1442695040888963407);
        let y = ((state >> 33) % 2_000_001) as i64 - 1_000_000;
        if x.abs() < 10 && y.abs() < 10 {
            continue;
        }
        taken += 1;
        match classify(x, y) {
            Cell::Obstacle => obstacles += 1,
            Cell::BotAnchor => anchors += 1,
            Cell::Empty => {}
        }
    }
    let obstacle_share = obstacles as f64 / samples as f64;
    let anchor_share = anchors as f64 / samples as f64;
    assert!((obstacle_share - 0.03).abs() < 0.01);
    assert!((anchor_share - 0.005).abs() < 0.01);
    assert!(anchor_share > 0.001);
    assert_eq!(obstacles, 2987);
    assert_eq!(anchors, 494);
}
