use player_stats::stats::{
    DecodeError, GameStat, RawNum, RawStat, RawValue, Sample, StatKind, UploadStat,
};

#[test]
fn mutation_paths_embed_the_name() {
    let m = UploadStat::IntTotal(3).create_increment_operation("kills");
    assert_eq!(m.value_path(), "stats.kills.value");
    assert_eq!(m.type_path(), "stats.kills.type");
    assert_eq!(m.total_path(), "stats.kills.value.total");
    assert_eq!(m.count_path(), "stats.kills.value.count");
    assert_eq!(m.stat_name, "kills");
}

#[test]
fn mutation_carries_kind_and_amount() {
    let m = UploadStat::FloatRollingAverage(2.5f64.to_bits()).create_increment_operation("speed");
    assert!(matches!(m.kind, StatKind::FloatRollingAverage));
    assert!(matches!(m.amount, Sample::Float(b) if b == 2.5f64.to_bits()));
    assert_eq!(m.kind.tag(), "float_rolling_average");
}

#[test]
fn kind_tags_match_the_wire() {
    assert_eq!(StatKind::IntTotal.tag(), "int_total");
    assert_eq!(StatKind::IntRollingAverage.tag(), "int_rolling_average");
    assert_eq!(StatKind::FloatTotal.tag(), "float_total");
    assert_eq!(StatKind::FloatRollingAverage.tag(), "float_rolling_average");
}

#[test]
fn totals_decode_to_themselves() {
    let raw = RawStat { kind: StatKind::IntTotal, value: RawValue::Scalar(RawNum::Int(41)) };
    match raw.decode() {
        Ok(GameStat::IntTotal(v)) => assert_eq!(v, 41),
        _ => panic!("an int total must decode to itself"),
    }
}

#[test]
fn averages_decode_to_total_and_count() {
    let raw = RawStat {
        kind: StatKind::IntRollingAverage,
        value: RawValue::Pair { total: RawNum::Int(10), count: 4 },
    };
    match raw.decode() {
        Ok(GameStat::IntAverage { total, count }) => {
            assert_eq!(total, 10);
            assert_eq!(count, 4);
            let mean = total as f64 / count as f64;
            assert_eq!(mean, 2.5);
        },
        _ => panic!("an int average must decode to its pair"),
    }
}

#[test]
fn zero_count_average_is_corruption_not_zero_mean() {
    let raw = RawStat {
        kind: StatKind::IntRollingAverage,
        value: RawValue::Pair { total: RawNum::Int(0), count: 0 },
    };
    match raw.decode() {
        Err(DecodeError::NonPositiveCount) => {},
        _ => panic!("count zero must be treated as corruption"),
    }
}

#[test]
fn float_payload_under_int_tag_is_shape_mismatch() {
    let raw = RawStat {
        kind: StatKind::IntTotal,
        value: RawValue::Scalar(RawNum::Float(vec![Sample::Float(24.5f64.to_bits())])),
    };
    match raw.decode() {
        Err(DecodeError::ShapeMismatch) => {},
        _ => panic!("a float payload under an int tag must fail to decode"),
    }
}

#[test]
fn float_total_decodes_to_its_sample_history() {
    let raw = RawStat {
        kind: StatKind::FloatTotal,
        value: RawValue::Scalar(RawNum::Float(vec![
            Sample::Float(1.5f64.to_bits()),
            Sample::Int(2),
        ])),
    };
    match raw.decode() {
        Ok(GameStat::FloatTotal(samples)) => {
            let total: f64 = samples
                .iter()
                .map(|s| match s {
                    Sample::Int(v) => *v as f64,
                    Sample::Float(b) => f64::from_bits(*b),
                })
                .sum();
            assert_eq!(total, 3.5);
        },
        _ => panic!("a float total must decode to its samples"),
    }
}

#[test]
fn stat_names_with_separator_are_invalid() {
    assert!(player_stats::is_valid_stat_name("kills"));
    assert!(player_stats::is_valid_stat_name(""));
    assert!(!player_stats::is_valid_stat_name("kills.count"));
    assert!(!player_stats::is_valid_stat_name("."));
}
