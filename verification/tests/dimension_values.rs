use ridesim::dimension_values::{
    check_dimension_value, typed_point_value_indices, DimensionValue, TypedDimension,
};
use ridesim::points::DimensionKind;

fn dim(name: &str, values: Vec<DimensionValue>) -> TypedDimension {
    TypedDimension { name: name.to_string(), values }
}

#[test]
fn checks_walk_from_the_last_dimension() {
    let dims = vec![
        dim("alpha_unknown", vec![DimensionValue::Unsigned(1)]),
        dim("num_riders", vec![DimensionValue::Text("many".to_string())]),
    ];
    assert_eq!(
        typed_point_value_indices(&dims, 0),
        Err("Dimension 'num_riders' must be an unsigned integer".to_string())
    );
    let dims = vec![
        dim("num_riders", vec![DimensionValue::Text("many".to_string())]),
        dim("zeta_unknown", vec![DimensionValue::Unsigned(1)]),
    ];
    assert_eq!(
        typed_point_value_indices(&dims, 0),
        Err("Unsupported dimension 'zeta_unknown'".to_string())
    );
}

#[test]
fn only_the_selected_value_is_checked() {
    let dims = vec![
        dim("commission_rate", vec![DimensionValue::OtherNumber, DimensionValue::Bool(true)]),
        dim("num_drivers", vec![DimensionValue::Unsigned(2), DimensionValue::Unsigned(4)]),
    ];
    assert_eq!(typed_point_value_indices(&dims, 1), Ok(vec![0, 1]));
    assert_eq!(
        typed_point_value_indices(&dims, 2),
        Err("Dimension 'commission_rate' must be numeric".to_string())
    );
    assert_eq!(
        typed_point_value_indices(&dims, 4),
        Err("Index exceeds dimension product".to_string())
    );
}

#[test]
fn value_checks_follow_each_parameter() {
    assert_eq!(
        check_dimension_value(DimensionKind::MatchRadius, "match_radius", &DimensionValue::Unsigned(1 << 40)),
        Err("Dimension 'match_radius' is too large".to_string())
    );
    assert_eq!(
        check_dimension_value(DimensionKind::EpochMs, "epoch_ms", &DimensionValue::Negative(-5)),
        Ok(())
    );
    assert_eq!(
        check_dimension_value(DimensionKind::EpochMs, "epoch_ms", &DimensionValue::Unsigned(u64::MAX)),
        Err("Dimension 'epoch_ms' must be a signed integer".to_string())
    );
    assert_eq!(
        check_dimension_value(
            DimensionKind::MatchingAlgorithmType,
            "matching_algorithm_type",
            &DimensionValue::Text("Cost-Based".to_string())
        ),
        Ok(())
    );
    assert_eq!(
        check_dimension_value(
            DimensionKind::TrafficProfile,
            "traffic_profile",
            &DimensionValue::Unsigned(1)
        ),
        Err("Dimension 'traffic_profile' must be a string".to_string())
    );
    assert_eq!(
        check_dimension_value(DimensionKind::BaseSpeedKmh, "base_speed_kmh", &DimensionValue::Null),
        Ok(())
    );
}
