//! Worker processing, simulation configuration vocabulary, and the
//! acquisition bookkeeping kept from the tuning harness.

use poly_kalshi_arb::simconfig::{
    get_default_pattern_verifications, PatternVerification, TickPrecision, VerificationStatus,
};
use poly_kalshi_arb::types::Regime;
use poly_kalshi_arb::worker::{
    bun_fetch_handler, BunWorker, TickData, WorkerConfig, WorkerEnvironment, WorkerRequest,
    WorkerStatus,
};
use poly_kalshi_arb::checkpoint::MockRedisClient;

fn request(pattern_id: u16, price: i64) -> WorkerRequest {
    WorkerRequest {
        pattern_id,
        market_id: "test_market".to_string(),
        tick: TickData {
            price,
            size: 1_000_000_000,
            book: "test_book".to_string(),
            platform: "test_platform".to_string(),
            market_type: "test_type".to_string(),
        },
        timestamp_ns: 123456789,
        request_id: "test_req".to_string(),
    }
}

#[test]
fn test_worker_config_default() {
    let config = WorkerConfig::new_default();
    assert_eq!(config.max_processing_time_us, 10_000);
    assert_eq!(config.trigger_threshold, 500_000);
    assert!(config.enable_persistence);
}

#[test]
fn test_bun_worker_creation() {
    let config = WorkerConfig::new_default();
    let worker = BunWorker::new(config);

    assert_eq!(worker.metrics.total_requests, 0);
    assert_eq!(worker.metrics.successful_requests, 0);
}

#[test]
fn test_worker_request_validation() {
    let config = WorkerConfig::new_default();
    let worker = BunWorker::new(config);

    let valid_request = request(51, 100_000_000);
    assert!(worker.validate_request(&valid_request).is_ok());

    let mut invalid_request = request(51, 100_000_000);
    invalid_request.pattern_id = 0;
    assert!(worker.validate_request(&invalid_request).is_err());

    let mut invalid_request = request(51, 100_000_000);
    invalid_request.tick.price = -1_000_000;
    assert!(worker.validate_request(&invalid_request).is_err());
}

#[test]
fn test_worker_processing() {
    let config = WorkerConfig::new_default();
    let mut worker = BunWorker::new(config);

    let response = worker.process_request(request(51, 100_000_000));

    assert!(matches!(response.status, WorkerStatus::Success));
    assert_eq!(response.request_id, "test_req");
    assert_eq!(worker.metrics.total_requests, 1);
    assert_eq!(worker.metrics.successful_requests, 1);
}

#[test]
fn test_worker_unknown_pattern() {
    let config = WorkerConfig::new_default();
    let mut worker = BunWorker::new(config);
    let response = worker.process_request(request(999, 100_000_000));
    assert!(matches!(response.status, WorkerStatus::FilterNotFound));
}

#[test]
fn test_position_sizing() {
    let config = WorkerConfig::new_default();
    let worker = BunWorker::new(config);

    let kelly_size = worker.calculate_position_size(2_000_000, 800_000);
    assert!(kelly_size > 0);

    let another = worker.calculate_position_size(1_500_000, 700_000);
    assert!(another > 0);
}

#[test]
fn test_fetch_handler() {
    let env = WorkerEnvironment {
        bet_queue_url: "queue://bets".to_string(),
        kv_store: MockRedisClient::new(),
    };
    let response = bun_fetch_handler(request(56, 500_000), &env);
    assert!(matches!(response.status, WorkerStatus::Success));
    let response = bun_fetch_handler(request(0, 500_000), &env);
    assert!(matches!(response.status, WorkerStatus::InvalidData));
}

#[test]
fn test_precision_multiplier() {
    assert_eq!(TickPrecision::Millisecond.multiplier(), 1_000_000);
    assert_eq!(TickPrecision::Microsecond.multiplier(), 1_000);
    assert_eq!(TickPrecision::Nanosecond.multiplier(), 1);
    assert_eq!(TickPrecision::Millisecond.name(), "millisecond");
}

#[test]
fn test_pattern_verification() {
    let mut verification = PatternVerification::new(
        75, "Velocity Conv".to_string(), 220, 8, "Model Complexity".to_string());

    assert_eq!(verification.component_id, 75);
    assert_eq!(verification.roi_target_bps, 220);
    assert!(matches!(verification.verification_status, VerificationStatus::Pending));
    assert!(!verification.is_target_met());

    verification.update_results(250, VerificationStatus::Verified);
    assert_eq!(verification.verified_roi_bps, 250);
    assert!(verification.is_target_met());
}

#[test]
fn test_default_pattern_verifications() {
    let verifications = get_default_pattern_verifications();

    assert_eq!(verifications.len(), 3);
    assert_eq!(verifications[0].component_id, 51);
    assert_eq!(verifications[1].roi_target_bps, 120);
    assert_eq!(verifications[2].alpha_half_life_weeks, 8);
}

#[test]
fn test_acquisition_functions() {
    let means = vec![0.5, 1.0, 1.5];
    let variances = vec![0.1, 0.2, 0.3];
    let y_train = vec![0.8, 1.2, 1.0];

    // Test Expected Improvement calculation
    let best_y = y_train.iter().fold(f64::NEG_INFINITY, |a, &b| a.max(b));
    assert_eq!(best_y, 1.2);
    let _ = (means, variances);
}

#[test]
fn regime_labels() {
    assert_eq!(Regime::Quiet.as_str(), "quiet");
    assert_eq!(Regime::Steam.as_str(), "steam");
    assert_eq!(Regime::Suspended.as_str(), "suspended");
}

#[test]
fn worker_processing_pins_response() {
    let config = WorkerConfig::new_default();
    let mut worker = BunWorker::new(config);
    let response = worker.process_request(request(51, 100_000_000));
    assert!(matches!(response.status, WorkerStatus::Success));
    assert_eq!(response.request_id, "test_req");
    assert_eq!(response.filter_state.pattern_id, 51);
    assert_eq!(response.filter_state.market_id, "test_market");
    assert_eq!(response.filter_state.last_update_ns, 123456789);
    assert_eq!(response.filter_state.state_vector.len(), 3);
    // The trigger decision matches the returned state: it fires
    // exactly when the filter's position is at least half a point off
    // the tick.
    let edge = (response.filter_state.state_vector[0] - 100_000_000i64).abs();
    assert_eq!(response.trigger.is_some(), edge >= 500_000);
    // The new state was persisted.
    assert!(worker.state_manager.load_filter_state(51, "test_market").is_some());
}
