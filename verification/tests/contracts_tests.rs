use financial_signal::contracts::{
    AvailabilityStatus, AvailableValue, ContractError, ProbabilitiesBp, Timeframe,
};

#[test]
fn missing_is_not_zero() {
    let missing = AvailableValue::<f64>::unavailable();
    assert_eq!(missing.value, None);
    assert!(missing.validate().is_ok());
}

#[test]
fn availability_mismatch_fails_closed() {
    let invalid = AvailableValue {
        value: Some(0.0),
        availability: AvailabilityStatus::Unavailable,
    };
    assert_eq!(invalid.validate(), Err(ContractError::AvailabilityMismatch));
}

#[test]
fn probabilities_are_exact_basis_points() {
    assert!(ProbabilitiesBp {
        up: 2500,
        range: 5000,
        down: 2500
    }
    .validate()
    .is_ok());
    assert_eq!(
        ProbabilitiesBp {
            up: 2500,
            range: 4999,
            down: 2500
        }
        .validate(),
        Err(ContractError::ProbabilitySum)
    );
}

#[test]
fn available_value_without_a_value_fails_closed() {
    let invalid: AvailableValue<u64> = AvailableValue {
        value: None,
        availability: AvailabilityStatus::Available,
    };
    assert_eq!(invalid.validate(), Err(ContractError::AvailabilityMismatch));
    assert!(AvailableValue::available(7u64).validate().is_ok());
    let not_applicable = AvailableValue::<u64>::not_applicable();
    assert_eq!(not_applicable.availability, AvailabilityStatus::NotApplicable);
    assert!(not_applicable.validate().is_ok());
}

#[test]
fn timeframe_seconds_nest() {
    assert_eq!(Timeframe::M1.nominal_seconds(), 60);
    assert_eq!(Timeframe::M5.nominal_seconds(), 300);
    assert_eq!(Timeframe::H1.nominal_seconds(), 3_600);
    assert_eq!(Timeframe::H4.nominal_seconds(), 14_400);
    assert_eq!(Timeframe::D1.nominal_seconds(), 86_400);
    assert_eq!(Timeframe::W1.nominal_seconds(), 604_800);
    assert_eq!(Timeframe::W1.nominal_seconds() % Timeframe::D1.nominal_seconds(), 0);
    assert_eq!(Timeframe::H4.nominal_seconds() % Timeframe::H1.nominal_seconds(), 0);
}

#[test]
fn probability_range_error_names_the_sum() {
    let over = ProbabilitiesBp {
        up: 10_000,
        range: 1,
        down: 0,
    };
    assert!(over.validate().is_err());
    assert_eq!(
        ContractError::ProbabilitySum.message(),
        "direction probabilities must sum to exactly 10000 basis points"
    );
}
