use password_generator::ComplexPasswordGenerator;
use password_generator::ComposeError;
use password_generator::PasswordGenerator;

fn compose_ok(g: &ComplexPasswordGenerator, length: usize) -> String {
    g.compose(length).expect("request should be valid")
}

#[test]
fn length_is_exact() {
    let g = ComplexPasswordGenerator::new(true, true, true, true);
    for length in 1..=30 {
        let p = compose_ok(&g, length);
        assert_eq!(p.chars().count(), length);
    }
    let g2 = ComplexPasswordGenerator::new(false, true, false, false);
    for length in 1..=30 {
        let p = compose_ok(&g2, length);
        assert_eq!(p.chars().count(), length);
    }
}

#[test]
fn lowercase_and_numbers_example() {
    // A 12-character string using only a-z0-9, with at least one letter and
    // at least one digit.
    let g = ComplexPasswordGenerator::new(false, true, true, false);
    for _ in 0..50 {
        let p = compose_ok(&g, 12);
        assert_eq!(p.chars().count(), 12);
        assert!(p.chars().all(|c| c.is_ascii_lowercase() || c.is_ascii_digit()));
        assert!(p.chars().any(|c| c.is_ascii_lowercase()));
        assert!(p.chars().any(|c| c.is_ascii_digit()));
    }
}

#[test]
fn output_stays_in_union() {
    let g = ComplexPasswordGenerator::new(true, false, false, true);
    let union: Vec<char> = "ABCDEFGHIJKLMNOPQRSTUVWXYZ!@#$%^&*()".chars().collect();
    for _ in 0..50 {
        let p = compose_ok(&g, 16);
        assert!(p.chars().all(|c| union.contains(&c)));
    }
}

#[test]
fn guaranteed_coverage_all_classes() {
    let g = ComplexPasswordGenerator::new(true, true, true, true);
    for length in [4usize, 5, 12, 20] {
        for _ in 0..50 {
            let p = compose_ok(&g, length);
            assert!(p.chars().any(|c| c.is_ascii_uppercase()));
            assert!(p.chars().any(|c| c.is_ascii_lowercase()));
            assert!(p.chars().any(|c| c.is_ascii_digit()));
            assert!(p.chars().any(|c| "!@#$%^&*()".contains(c)));
        }
    }
}

#[test]
fn coverage_truncated_when_length_is_short() {
    // Four classes but only two slots: the coverage list is cut after the
    // first two classes in the fixed order, so only uppercase and lowercase
    // characters can appear.
    let g = ComplexPasswordGenerator::new(true, true, true, true);
    for _ in 0..50 {
        let p = compose_ok(&g, 2);
        assert_eq!(p.chars().count(), 2);
        assert!(p.chars().all(|c| c.is_ascii_uppercase() || c.is_ascii_lowercase()));
        assert!(p.chars().any(|c| c.is_ascii_uppercase()));
        assert!(p.chars().any(|c| c.is_ascii_lowercase()));
    }
}

#[test]
fn zero_length_is_invalid() {
    let g = ComplexPasswordGenerator::new(true, true, true, true);
    assert_eq!(g.compose(0), Err(ComposeError::InvalidRequest));
}

#[test]
fn empty_class_set_is_invalid() {
    let g = ComplexPasswordGenerator::new(false, false, false, false);
    assert_eq!(g.compose(12), Err(ComposeError::InvalidRequest));
    assert_eq!(g.compose(0), Err(ComposeError::InvalidRequest));
}

#[test]
fn repeated_calls_differ() {
    // 100 trials at length 12: no exact collision is expected.
    let g = ComplexPasswordGenerator::new(true, true, true, true);
    let mut seen: Vec<String> = Vec::new();
    for _ in 0..100 {
        let p = compose_ok(&g, 12);
        assert!(!seen.contains(&p), "two identical passwords in 100 trials");
        seen.push(p);
    }
}

#[test]
fn single_class_draws_are_uniform() {
    // 10,000 single-character draws from the ten digits: chi-square
    // goodness-of-fit against the uniform distribution, nine degrees of
    // freedom, with a generous significance threshold.
    let g = ComplexPasswordGenerator::new(false, false, true, false);
    let mut counts = [0usize; 10];
    for _ in 0..10_000 {
        let p = compose_ok(&g, 1);
        let c = p.chars().next().unwrap();
        let d = c.to_digit(10).expect("a digit") as usize;
        counts[d] += 1;
    }
    let expected = 1000.0f64;
    let chi2: f64 = counts
        .iter()
        .map(|&n| {
            let diff = n as f64 - expected;
            diff * diff / expected
        })
        .sum();
    assert!(chi2 < 40.0, "chi-square statistic too large: {chi2}, counts {counts:?}");
    for &n in counts.iter() {
        assert!(n > 0, "some digit never drawn: {counts:?}");
    }
}

#[test]
fn trait_method_generates() {
    let g = ComplexPasswordGenerator::new(true, true, false, false);
    let boxed: Box<dyn PasswordGenerator> = Box::new(g);
    let p = boxed.generate_password(10);
    assert_eq!(p.chars().count(), 10);
    assert!(p.chars().all(|c| c.is_ascii_alphabetic()));
}

#[test]
fn overridden_alphabet_is_respected() {
    let mut g = ComplexPasswordGenerator::new(true, false, false, false);
    g.characters.uppercase = String::from("XY");
    for _ in 0..20 {
        let p = compose_ok(&g, 8);
        assert_eq!(p.chars().count(), 8);
        assert!(p.chars().all(|c| c == 'X' || c == 'Y'));
    }
}
