use honeytrap_deception::{ResponseGenerator, ResponseStrategy};

#[test]
fn test_minimal_strategy() {
    let gen = ResponseGenerator::new(ResponseStrategy::Minimal);
    let delay = gen.calculate_delay(500);
    assert!(delay < 500);
}

#[test]
fn test_deep_strategy() {
    let gen = ResponseGenerator::new(ResponseStrategy::Deep);
    let delay = gen.calculate_delay(500);
    assert!(delay > 1000);
}

#[test]
fn test_engagement_update() {
    let mut gen = ResponseGenerator::new(ResponseStrategy::Adaptive);
    let initial = gen.engagement_level();

    gen.update_engagement(true, false);
    assert!(gen.engagement_level() > initial);
}

#[test]
fn test_time_tracking() {
    let mut gen = ResponseGenerator::new(ResponseStrategy::Standard);
    gen.add_wasted_time(5000);
    gen.add_wasted_time(3000);

    assert_eq!(gen.total_time_wasted(), 8000);
}

#[test]
fn delays_per_strategy() {
    assert_eq!(ResponseGenerator::new(ResponseStrategy::Minimal).calculate_delay(0), 50);
    assert_eq!(ResponseGenerator::new(ResponseStrategy::Standard).calculate_delay(1000), 700);
    assert_eq!(ResponseGenerator::new(ResponseStrategy::Deep).calculate_delay(500), 1250);
    assert_eq!(ResponseGenerator::new(ResponseStrategy::Adaptive).calculate_delay(0), 500);
    assert_eq!(ResponseGenerator::default().calculate_delay(0), 200);
}

#[test]
fn minimal_is_faster_than_deep_for_every_complexity() {
    let minimal = ResponseGenerator::new(ResponseStrategy::Minimal);
    let deep = ResponseGenerator::new(ResponseStrategy::Deep);
    for c in [0u32, 1, 250, 999, 1000] {
        assert!(minimal.calculate_delay(c) < deep.calculate_delay(c));
    }
}

#[test]
fn engagement_rises_to_ceiling_and_falls_to_floor() {
    let mut gen = ResponseGenerator::new(ResponseStrategy::Adaptive);
    assert_eq!(gen.engagement_level(), 5);
    for _ in 0..10 {
        let before = gen.engagement_level();
        gen.update_engagement(true, false);
        assert!(gen.engagement_level() > before || before == 10);
        assert!(gen.engagement_level() <= 10);
    }
    assert_eq!(gen.engagement_level(), 10);
    for _ in 0..10 {
        let before = gen.engagement_level();
        gen.update_engagement(false, true);
        assert!(gen.engagement_level() < before || before == 1);
        assert!(gen.engagement_level() >= 1);
    }
    assert_eq!(gen.engagement_level(), 1);
    gen.update_engagement(false, false);
    assert_eq!(gen.engagement_level(), 1);
}

#[test]
fn adaptive_gates_follow_engagement() {
    let mut gen = ResponseGenerator::new(ResponseStrategy::Adaptive);
    assert!(gen.should_provide_detailed_error());
    assert!(!gen.should_simulate_vulnerability());
    gen.update_engagement(true, false);
    gen.update_engagement(true, false);
    gen.update_engagement(true, false);
    assert!(gen.should_simulate_vulnerability());
    gen.update_engagement(false, true);
    gen.update_engagement(false, true);
    gen.update_engagement(false, true);
    assert_eq!(gen.engagement_level(), 2);
    assert!(!gen.should_provide_detailed_error());
    let minimal = ResponseGenerator::new(ResponseStrategy::Minimal);
    assert!(!minimal.should_provide_detailed_error());
    assert!(ResponseGenerator::new(ResponseStrategy::Deep).should_simulate_vulnerability());
    assert!(!ResponseGenerator::new(ResponseStrategy::Standard).should_simulate_vulnerability());
}
