use financial_signal::calibration::{
    actual_direction_recall, balanced_accuracy_bp, confusion_matrix, diagnostic_count,
    direction_index, direction_key, direction_order, direction_reliability, direction_support,
    dynamics_feature_definitions, empty_direction_confusion_matrix, integer_log2, integer_sqrt,
    median_u16, probability_edge_bp, ratio_bp, unresolved, valid_sha256,
    variant_feature_families, CalibrationProtocol, ScoredCase, DEVELOPMENT_DATA_CUTOFF_NS,
    ENGINE_VERSION, RESOLUTION_CALIBRATION_VERSION, STRUCTURAL_VECTOR_VERSION,
};
use financial_signal::contracts::{CalibrationScope, Direction, ProbabilitiesBp};
use financial_signal::dynamics::DynamicsVariant;

fn case(actual: Direction, predicted: Direction) -> ScoredCase {
    ScoredCase {
        actual,
        predicted,
        probabilities: ProbabilitiesBp {
            up: 4000,
            range: 3000,
            down: 3000,
        },
        correct: actual == predicted,
    }
}

#[test]
fn ratio_bp_rounds_half_up() {
    assert_eq!(ratio_bp(1, 3), 3333);
    assert_eq!(ratio_bp(2, 3), 6667);
    assert_eq!(ratio_bp(1, 2), 5000);
    assert_eq!(ratio_bp(5, 5), 10_000);
    assert_eq!(ratio_bp(0, 7), 0);
    assert_eq!(ratio_bp(3, 0), 0);
}

#[test]
fn integer_sqrt_is_the_floor_root() {
    assert_eq!(integer_sqrt(0), 0);
    assert_eq!(integer_sqrt(1), 1);
    assert_eq!(integer_sqrt(15), 3);
    assert_eq!(integer_sqrt(16), 4);
    assert_eq!(integer_sqrt(17), 4);
    assert_eq!(integer_sqrt(800), 28);
    assert_eq!(integer_sqrt(usize::MAX), 4_294_967_295);
}

#[test]
fn integer_log2_is_the_bit_length() {
    assert_eq!(integer_log2(0), 1);
    assert_eq!(integer_log2(1), 1);
    assert_eq!(integer_log2(2), 2);
    assert_eq!(integer_log2(8), 4);
    assert_eq!(integer_log2(1023), 10);
    assert_eq!(integer_log2(1024), 11);
}

#[test]
fn probability_edge_is_top_minus_second() {
    let p = ProbabilitiesBp {
        up: 4000,
        range: 3000,
        down: 3000,
    };
    assert_eq!(probability_edge_bp(p), 1000);
    let q = ProbabilitiesBp {
        up: 2000,
        range: 1500,
        down: 6500,
    };
    assert_eq!(probability_edge_bp(q), 4500);
    let tie = ProbabilitiesBp {
        up: 5000,
        range: 0,
        down: 5000,
    };
    assert_eq!(probability_edge_bp(tie), 0);
}

#[test]
fn sha256_text_shape_is_checked() {
    let good = format!("sha256:{}", "0123456789abcdef".repeat(4));
    assert!(valid_sha256(&good));
    assert!(!valid_sha256("sha256:abc123"));
    let upper = format!("sha256:{}", "0123456789ABCDEF".repeat(4));
    assert!(!valid_sha256(&upper));
    let prefix = format!("sha512:{}", "0123456789abcdef".repeat(4));
    assert!(!valid_sha256(&prefix));
}

#[test]
fn direction_axes_and_keys() {
    assert_eq!(direction_index(Direction::Up), 0);
    assert_eq!(direction_index(Direction::Range), 1);
    assert_eq!(direction_index(Direction::Unresolved), 1);
    assert_eq!(direction_index(Direction::Down), 2);
    assert_eq!(direction_order(Direction::Up), 0);
    assert_eq!(direction_order(Direction::Range), 1);
    assert_eq!(direction_order(Direction::Down), 2);
    assert_eq!(direction_order(Direction::Unresolved), 3);
    assert_eq!(direction_key(Direction::Up), "UP");
    assert_eq!(direction_key(Direction::Unresolved), "UNRESOLVED");
}

#[test]
fn reliability_recall_and_balanced_accuracy() {
    let results = vec![
        case(Direction::Up, Direction::Up),
        case(Direction::Up, Direction::Down),
        case(Direction::Down, Direction::Down),
        case(Direction::Range, Direction::Down),
    ];
    let reliability = direction_reliability(&results);
    assert_eq!(reliability.up, Some(10_000));
    assert_eq!(reliability.down, Some(3333));
    assert_eq!(reliability.range, None);
    let recall = actual_direction_recall(&results);
    assert_eq!(recall.up, Some(5000));
    assert_eq!(recall.down, Some(10_000));
    assert_eq!(recall.range, Some(0));
    assert_eq!(balanced_accuracy_bp(&results), 5000);
    assert_eq!(balanced_accuracy_bp(&[]), 0);
}

#[test]
fn confusion_rows_match_actual_support() {
    let results = vec![
        case(Direction::Up, Direction::Up),
        case(Direction::Up, Direction::Down),
        case(Direction::Down, Direction::Down),
        case(Direction::Range, Direction::Up),
    ];
    let matrix = confusion_matrix(&results);
    let support = direction_support(&results, true);
    assert_eq!(matrix.up.up + matrix.up.range + matrix.up.down, support.up);
    assert_eq!(matrix.down.up + matrix.down.range + matrix.down.down, support.down);
    assert_eq!(matrix.range.up + matrix.range.range + matrix.range.down, support.range);
    assert_eq!(matrix.up.down, 1);
    assert_eq!(matrix.range.up, 1);
    let predicted = direction_support(&results, false);
    assert_eq!(predicted.up, 2);
    assert_eq!(predicted.down, 2);
    assert_eq!(predicted.range, 0);
    let empty = empty_direction_confusion_matrix();
    assert_eq!(empty.up.up + empty.range.range + empty.down.down, 0);
}

#[test]
fn diagnostic_counts_follow_array_axes() {
    let count = diagnostic_count([3, 1, 2]);
    assert_eq!(count.up, 3);
    assert_eq!(count.range, 1);
    assert_eq!(count.down, 2);
}

#[test]
fn median_is_the_upper_middle_and_sorts() {
    let mut values = vec![5u16, 1, 3];
    assert_eq!(median_u16(&mut values), Some(3));
    assert_eq!(values, vec![1, 3, 5]);
    let mut even = vec![4u16, 2];
    assert_eq!(median_u16(&mut even), Some(4));
    let mut none: Vec<u16> = vec![];
    assert_eq!(median_u16(&mut none), None);
}

#[test]
fn unresolved_resolution_publishes_nothing() {
    let r = unresolved(
        CalibrationScope::AssetClass,
        "sha256:x".to_string(),
        7,
        "INSUFFICIENT_MATCHED_SUPPORT",
    );
    assert_eq!(r.direction, Direction::Unresolved);
    assert!(r.probabilities_bp.is_none());
    assert!(r.horizon.is_none());
    assert!(r.reliability_bp.is_none());
    assert_eq!(r.sample_support, 7);
    assert_eq!(r.calibration_scope, CalibrationScope::AssetClass);
    assert_eq!(r.publication_reason, "INSUFFICIENT_MATCHED_SUPPORT");
}

#[test]
fn frozen_protocol_names_its_versions() {
    let protocol = CalibrationProtocol::frozen();
    assert_eq!(protocol.schema, "pramagraph.calibration_protocol.v1");
    assert_eq!(protocol.protocol_id, RESOLUTION_CALIBRATION_VERSION);
    assert_eq!(protocol.structural_vector_version, STRUCTURAL_VECTOR_VERSION);
    assert_eq!(protocol.engine_version, ENGINE_VERSION);
    assert_eq!(
        protocol.calibration_procedure.split_rules.preregistration_boundary_ns,
        DEVELOPMENT_DATA_CUTOFF_NS
    );
    assert_eq!(protocol.calibration_procedure.first_passage.max_horizon_bars_d1, 10);
    assert_eq!(protocol.calibration_procedure.first_passage.max_horizon_bars_w1, 8);
    assert!(protocol.determinism.no_randomness);
    assert_eq!(protocol, CalibrationProtocol::frozen());
}

#[test]
fn variant_families_grow_one_at_a_time() {
    let mut previous: Vec<String> = Vec::new();
    for variant in DynamicsVariant::all() {
        let families = variant_feature_families(variant);
        assert_eq!(families.len(), previous.len() + 1);
        assert_eq!(&families[..previous.len()], &previous[..]);
        previous = families;
    }
    assert_eq!(previous[0], "financial_structural_vector_v2 snapshot");
}

#[test]
fn feature_definitions_are_sorted_by_name() {
    let definitions = dynamics_feature_definitions();
    assert_eq!(definitions.len(), 12);
    assert!(definitions.windows(2).all(|pair| pair[0].0 < pair[1].0));
    assert_eq!(definitions[0].0, "dynamics.delta_acceleration");
}

#[test]
fn only_samples_with_the_query_mask_are_candidates() {
    let query = vec![true, false, true];
    let samples = vec![
        vec![true, false, true],
        vec![true, true, true],
        vec![true, false],
        vec![true, false, true],
    ];
    assert_eq!(financial_signal::calibration::exact_mask_candidates(&query, &samples), vec![0, 3]);
}
