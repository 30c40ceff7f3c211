//! Rate and threshold validation helpers, as a driver would use them.

use zmart_core::global_config::GlobalConfig;
use zmart_core::market::MarketState;

/// An update request with only some fields set.
#[derive(Debug, Clone)]
struct ConfigUpdate {
    backend_authority: Option<u64>,
    protocol_fee_bps: Option<u16>,
    resolver_reward_bps: Option<u16>,
    liquidity_provider_fee_bps: Option<u16>,
    proposal_approval_threshold: Option<u16>,
    dispute_success_threshold: Option<u16>,
}

impl ConfigUpdate {
    fn new() -> Self {
        Self {
            backend_authority: None,
            protocol_fee_bps: None,
            resolver_reward_bps: None,
            liquidity_provider_fee_bps: None,
            proposal_approval_threshold: None,
            dispute_success_threshold: None,
        }
    }

    fn with_protocol_fee(mut self, bps: u16) -> Self {
        self.protocol_fee_bps = Some(bps);
        self
    }

    fn with_resolver_reward(mut self, bps: u16) -> Self {
        self.resolver_reward_bps = Some(bps);
        self
    }

    fn with_lp_fee(mut self, bps: u16) -> Self {
        self.liquidity_provider_fee_bps = Some(bps);
        self
    }

    fn with_proposal_threshold(mut self, bps: u16) -> Self {
        self.proposal_approval_threshold = Some(bps);
        self
    }

    fn with_dispute_threshold(mut self, bps: u16) -> Self {
        self.dispute_success_threshold = Some(bps);
        self
    }
}

fn validate_fee_sum(protocol: u16, resolver: u16, lp: u16) -> Result<(), &'static str> {
    let total = (protocol as u32) + (resolver as u32) + (lp as u32);
    if total > 10000 {
        Err("Total fees exceed 100%")
    } else {
        Ok(())
    }
}

fn validate_threshold(bps: u16) -> Result<(), &'static str> {
    if bps > 10000 {
        Err("Threshold exceeds 100%")
    } else {
        Ok(())
    }
}

/// A configuration with the default rates, for driving the checks.
fn test_config_with_admin(admin: u64) -> GlobalConfig {
    GlobalConfig {
        admin,
        backend_authority: 2,
        protocol_fee_wallet: 3,
        protocol_fee_bps: 300,
        resolver_reward_bps: 200,
        liquidity_provider_fee_bps: 500,
        proposal_approval_threshold: 7000,
        dispute_success_threshold: 6000,
        min_resolution_delay: 86400,
        dispute_period: 259200,
        min_resolver_reputation: 8000,
        is_paused: false,
    }
}

#[test]
fn test_config_update_builder() {
    let update = ConfigUpdate::new().with_protocol_fee(400).with_proposal_threshold(7500);

    assert_eq!(update.protocol_fee_bps, Some(400));
    assert_eq!(update.proposal_approval_threshold, Some(7500));
    assert_eq!(update.backend_authority, None);
}

#[test]
fn test_update_builder_partial_fields() {
    // A builder with only one rate set leaves the others unset.
    let update = ConfigUpdate::new()
        .with_resolver_reward(250)
        .with_lp_fee(450)
        .with_dispute_threshold(5500);

    assert_eq!(update.protocol_fee_bps, None);
    assert_eq!(update.resolver_reward_bps, Some(250));
    assert_eq!(update.liquidity_provider_fee_bps, Some(450));
    assert_eq!(update.dispute_success_threshold, Some(5500));
}

#[test]
fn test_validate_fee_sum_valid() {
    assert!(validate_fee_sum(300, 200, 500).is_ok());
    assert!(validate_fee_sum(0, 0, 0).is_ok());
    assert!(validate_fee_sum(10000, 0, 0).is_ok());
    assert!(validate_fee_sum(3333, 3333, 3334).is_ok());
}

#[test]
fn test_validate_fee_sum_invalid() {
    assert!(validate_fee_sum(5001, 5001, 0).is_err());
    assert!(validate_fee_sum(6000, 6000, 0).is_err());
    assert!(validate_fee_sum(10001, 0, 0).is_err());
}

#[test]
fn test_validate_threshold_valid() {
    assert!(validate_threshold(0).is_ok());
    assert!(validate_threshold(5000).is_ok());
    assert!(validate_threshold(10000).is_ok());
    assert!(validate_threshold(7000).is_ok());
}

#[test]
fn test_validate_threshold_invalid() {
    assert!(validate_threshold(10001).is_err());
    assert!(validate_threshold(20000).is_err());
}

#[test]
fn test_test_config_defaults() {
    let admin = 41;
    let config = test_config_with_admin(admin);

    assert_eq!(config.admin, admin);
    assert_eq!(config.protocol_fee_bps, 300);
    assert_eq!(config.resolver_reward_bps, 200);
    assert_eq!(config.liquidity_provider_fee_bps, 500);
    assert_eq!(config.total_fee_bps().unwrap(), 1000);
    assert!(config.validate().is_ok());
}

#[test]
fn test_test_config_total_fee() {
    let admin = 42;
    let mut config = test_config_with_admin(admin);

    assert_eq!(config.total_fee_bps().unwrap(), 1000); // 3% + 2% + 5%

    config.protocol_fee_bps = 5000;
    config.resolver_reward_bps = 3000;
    config.liquidity_provider_fee_bps = 2000;

    assert_eq!(config.total_fee_bps().unwrap(), 10000); // 50% + 30% + 20%
    assert!(config.validate().is_ok());
}

#[test]
fn test_test_config_validation() {
    let admin = 43;
    let mut config = test_config_with_admin(admin);

    // Valid default
    assert!(config.validate().is_ok());

    // Make invalid
    config.protocol_fee_bps = 6000;
    config.resolver_reward_bps = 4001;
    config.liquidity_provider_fee_bps = 1000;

    assert!(config.validate().is_err());
}

// ---- update validation scenarios ----

#[test]
fn test_valid_config_update() {
    // A valid update: 3% + 2% + 5% = 10%.
    let total_fee = 300u32 + 200u32 + 500u32;
    assert!(total_fee <= 10000);
}

#[test]
fn test_fee_structure_validation() {
    // Fees summing to exactly 100% are still acceptable.
    let protocol_fee = 3000u16;
    let resolver_fee = 3000u16;
    let lp_fee = 4000u16;

    let total = (protocol_fee as u32)
        .checked_add(resolver_fee as u32)
        .unwrap()
        .checked_add(lp_fee as u32)
        .unwrap();

    assert_eq!(total, 10000);
    assert!(validate_fee_sum(protocol_fee, resolver_fee, lp_fee).is_ok());
}

#[test]
fn test_fee_structure_exceeds_100() {
    // Fees beyond 100% are not.
    let protocol_fee = 3001u16;
    let resolver_fee = 3001u16;
    let lp_fee = 4001u16;

    let total = (protocol_fee as u32)
        .checked_add(resolver_fee as u32)
        .unwrap()
        .checked_add(lp_fee as u32)
        .unwrap();

    assert!(total > 10000);
    assert!(validate_fee_sum(protocol_fee, resolver_fee, lp_fee).is_err());
}

#[test]
fn update_global_config_test_threshold_validation() {
    // The default thresholds sit inside the range.
    assert!(7000u16 <= 10000);
    assert!(6000u16 <= 10000);
}

#[test]
fn test_threshold_exceeds_100() {
    let invalid_threshold = 10001u16;
    assert!(invalid_threshold > 10000);
}

#[test]
fn test_config_structure() {
    let config = test_config_with_admin(44);

    assert_eq!(config.protocol_fee_bps, 300);
    assert_eq!(config.resolver_reward_bps, 200);
    assert_eq!(config.liquidity_provider_fee_bps, 500);
    assert_eq!(config.proposal_approval_threshold, 7000);
    assert_eq!(config.dispute_success_threshold, 6000);
}

// ---- cancellation policy ----

#[test]
fn test_cancel_market_requires_admin() {
    // Only the admin may cancel markets; any other identity is distinct.
    let admin: u64 = 51;
    let non_admin: u64 = 52;

    assert_ne!(admin, non_admin);
}

#[test]
fn test_cancel_market_in_proposed_state() {
    // Only the first two states can be cancelled.
    let market_state = MarketState::Proposed;
    match market_state {
        MarketState::Proposed | MarketState::Approved => {
            // Can cancel
        },
        _ => {
            panic!("Should not reach here");
        },
    }
}

#[test]
fn test_cancel_market_prevents_active_state_cancellation() {
    // An active market cannot be cancelled.
    let market_state = MarketState::Active;

    match market_state {
        MarketState::Proposed | MarketState::Approved => {
            panic!("Should not reach here");
        },
        _ => {
            // Correctly prevented
        },
    }
}

#[test]
fn test_cancel_market_refunds_liquidity_providers() {
    // After cancellation the whole pool goes back to the creator.
    let initial_liquidity: u64 = 1_000_000_000; // 1 unit

    let refunded_amount = initial_liquidity;

    assert_eq!(refunded_amount, initial_liquidity);
}

#[test]
fn test_cancel_market_cannot_cancel_twice() {
    // A cancelled market stays cancelled.
    let is_cancelled = true;

    assert!(is_cancelled);
}

// ---- combined admin workflows ----

#[test]
fn test_update_config_while_paused() {
    // The admin can still reconfigure while the system is paused.
    let mut config = test_config_with_admin(53);

    config.is_paused = true;

    let original_fee = config.protocol_fee_bps;
    config.protocol_fee_bps = 400;

    assert!(config.is_paused);
    assert_ne!(original_fee, config.protocol_fee_bps);
}

#[test]
fn test_fee_update_respects_constraints() {
    // Every fee update keeps the sum at or below 100%.
    let mut config = test_config_with_admin(54);

    config.protocol_fee_bps = 5000; // 50%
    config.resolver_reward_bps = 3000; // 30%
    config.liquidity_provider_fee_bps = 2000; // 20%

    assert!(config.validate().is_ok());

    config.protocol_fee_bps = 5001; // 50.01%

    assert!(config.validate().is_err());
}

#[test]
fn test_admin_workflow_setup_and_adjust() {
    // The admin creates a configuration and adjusts it over time.
    let mut config = test_config_with_admin(55);

    // Defaults
    assert_eq!(config.protocol_fee_bps, 300); // 3%
    assert_eq!(config.proposal_approval_threshold, 7000); // 70%

    // Lower the fee after market feedback.
    config.protocol_fee_bps = 250; // 2.5%
    assert!(config.validate().is_ok());

    // Stricter proposals.
    config.proposal_approval_threshold = 8000; // 80%
    assert!(validate_threshold(config.proposal_approval_threshold).is_ok());

    // Faster dispute resolution.
    config.dispute_success_threshold = 5500; // 55%
    assert!(validate_threshold(config.dispute_success_threshold).is_ok());
}

#[test]
fn test_admin_emergency_response() {
    // The admin detects an anomaly and responds.
    let mut config = test_config_with_admin(56);

    // Normal operation.
    assert!(!config.is_paused);

    // Anomaly detected: pause.
    config.is_paused = true;
    assert!(config.is_paused);

    // Raise fees to discourage abuse.
    config.protocol_fee_bps = 1000; // 10%
    assert!(config.validate().is_ok());

    // Resume.
    config.is_paused = false;
    assert!(!config.is_paused);
}

#[test]
fn test_admin_policy_evolution() {
    // Policy evolves as the deployment matures.
    let mut config = test_config_with_admin(57);

    // Conservative start.
    config.protocol_fee_bps = 500; // 5%
    config.proposal_approval_threshold = 8000; // 80%
    assert!(config.validate().is_ok());

    // Fees come down.
    config.protocol_fee_bps = 300; // 3%
    assert!(config.validate().is_ok());

    // Disputes settle faster.
    config.dispute_success_threshold = 5000; // 50%
    assert!(validate_threshold(config.dispute_success_threshold).is_ok());

    // The final state is valid throughout.
    assert!(config.validate().is_ok());
    assert!(validate_threshold(config.proposal_approval_threshold).is_ok());
    assert!(validate_threshold(config.dispute_success_threshold).is_ok());
}
