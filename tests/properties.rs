use cvss_vulnerability_scores::error::CvssError;
use cvss_vulnerability_scores::rating::{get_rating, Rating};
use cvss_vulnerability_scores::score::{vulnerability_calculate, Metrics};
use cvss_vulnerability_scores::table::{get_qualitative_metrics, MetricName};
use cvss_vulnerability_scores::vector::{parse_cvss, parse_scope, BaseVector};
use cvss_vulnerability_scores::vulnerability_calculate_cvss;

fn metrics(w: [u64; 7], sc: bool) -> Metrics {
    Metrics { av: w[0], ac: w[1], pr: w[2], ui: w[3], c: w[4], i: w[5], a: w[6], sc }
}

#[test]
fn scenario_medium_vector_rates_medium() {
    let score = vulnerability_calculate_cvss("CVSS:3.1/AV:A/AC:H/PR:L/UI:N/S:C/C:H/I:L/A:N");
    assert_eq!(score, Ok(64));
    assert_eq!(get_rating(64, 10), Rating::Medium);
    assert_eq!(get_rating(64, 10).label(), "Medium");
}

#[test]
fn scenario_unchanged_scope_vector_scores() {
    assert_eq!(vulnerability_calculate_cvss("CVSS:3.1/AV:N/AC:L/PR:H/UI:N/S:U/C:L/I:L/A:N"), Ok(29));
    assert_eq!(vulnerability_calculate_cvss("CVSS:3.1/AV:L/AC:H/PR:H/UI:N/S:C/C:L/I:N/A:N"), Ok(21));
}

#[test]
fn highest_weights_of_each_scope() {
    assert_eq!(vulnerability_calculate_cvss("CVSS:3.1/AV:A/AC:L/PR:N/UI:N/S:C/C:H/I:H/A:H"), Ok(94));
    assert_eq!(vulnerability_calculate_cvss("CVSS:3.1/AV:A/AC:L/PR:N/UI:N/S:U/C:H/I:H/A:H"), Ok(88));
}

#[test]
fn no_impact_scores_zero() {
    assert_eq!(vulnerability_calculate_cvss("CVSS:3.1/AV:A/AC:L/PR:N/UI:N/S:C/C:N/I:N/A:N"), Ok(0));
    assert_eq!(vulnerability_calculate_cvss("CVSS:3.1/AV:A/AC:L/PR:N/UI:N/S:U/C:N/I:N/A:N"), Ok(0));
    assert_eq!(get_rating(0, 10), Rating::Negligible);
}

#[test]
fn scoring_twice_gives_the_same_value() {
    let v = "CVSS:3.1/AV:P/AC:H/PR:L/UI:R/S:U/C:L/I:N/A:N";
    assert_eq!(vulnerability_calculate_cvss(v), vulnerability_calculate_cvss(v));
}

#[test]
fn every_valid_vector_scores_within_range() {
    let av = ['N', 'A', 'L', 'P'];
    let ac = ['L', 'H'];
    let pr = ['N', 'L', 'H'];
    let ui = ['N', 'R'];
    let s = ['U', 'C'];
    let nlh = ['N', 'L', 'H'];
    for a1 in av {
        for a2 in ac {
            for a3 in pr {
                for a4 in ui {
                    for a5 in s {
                        for a6 in nlh {
                            for a7 in nlh {
                                for a8 in nlh {
                                    let v = format!(
                                        "CVSS:3.1/AV:{}/AC:{}/PR:{}/UI:{}/S:{}/C:{}/I:{}/A:{}",
                                        a1, a2, a3, a4, a5, a6, a7, a8
                                    );
                                    let r = vulnerability_calculate_cvss(&v).unwrap();
                                    assert!(r <= 100);
                                    assert_ne!(get_rating(r as i64, 10), Rating::Invalid);
                                }
                            }
                        }
                    }
                }
            }
        }
    }
}

#[test]
fn missing_scope_is_reported() {
    assert_eq!(
        vulnerability_calculate_cvss("CVSS:3.1/AV:A/AC:H/PR:L/UI:N/C:H/I:L/A:N"),
        Err(CvssError::MissingScope)
    );
    assert_eq!(vulnerability_calculate_cvss(""), Err(CvssError::MissingScope));
    assert_eq!(parse_scope("S:X"), Err(CvssError::MissingScope));
}

#[test]
fn malformed_vectors_are_rejected() {
    // another version tag
    assert_eq!(
        vulnerability_calculate_cvss("CVSS:1.2/AV:P/AC:H/PR:L/UI:R/S:U/C:L/I:N/A:N"),
        Err(CvssError::MalformedVector)
    );
    // fields out of order
    assert_eq!(
        vulnerability_calculate_cvss("CVSS:3.1/AC:H/AV:P/PR:L/UI:R/S:U/C:L/I:N/A:N"),
        Err(CvssError::MalformedVector)
    );
    // unknown letter
    assert_eq!(
        vulnerability_calculate_cvss("CVSS:3.1/AV:X/AC:H/PR:L/UI:R/S:U/C:L/I:N/A:N"),
        Err(CvssError::MalformedVector)
    );
    // lower case
    assert_eq!(
        vulnerability_calculate_cvss("CVSS:3.1/AV:p/AC:H/PR:L/UI:R/S:U/C:L/I:N/A:N"),
        Err(CvssError::MalformedVector)
    );
    // a field missing
    assert_eq!(
        vulnerability_calculate_cvss("CVSS:3.1/AV:P/AC:H/PR:L/UI:R/S:U/C:L/I:N"),
        Err(CvssError::MalformedVector)
    );
}

#[test]
fn surrounding_text_is_ignored() {
    let plain = vulnerability_calculate_cvss("CVSS:3.1/AV:A/AC:H/PR:L/UI:N/S:C/C:H/I:L/A:N");
    assert_eq!(
        vulnerability_calculate_cvss("CVSS:3.1/AV:A/AC:H/PR:L/UI:N/S:C/C:H/I:L/A:N/E:F"),
        plain
    );
    assert_eq!(
        vulnerability_calculate_cvss("vector CVSS:3.1/AV:A/AC:H/PR:L/UI:N/S:C/C:H/I:L/A:N"),
        plain
    );
}

#[test]
fn parse_returns_letters_in_order() {
    let v = parse_cvss("x CVSS:3.1/AV:L/AC:H/PR:H/UI:N/S:C/C:L/I:N/A:H");
    assert_eq!(
        v,
        Ok(BaseVector {
            av: b'L',
            ac: b'H',
            pr: b'H',
            ui: b'N',
            s: b'C',
            c: b'L',
            i: b'N',
            a: b'H',
        })
    );
}

#[test]
fn scope_flag_follows_first_scope_field() {
    assert_eq!(parse_scope("CVSS:3.1/AV:L/AC:H/PR:H/UI:N/S:C/C:L/I:N/A:H"), Ok(true));
    assert_eq!(parse_scope("CVSS:3.1/AV:L/AC:H/PR:H/UI:N/S:U/C:L/I:N/A:H"), Ok(false));
    assert_eq!(parse_scope("S:U S:C"), Ok(false));
}

#[test]
fn table_weights() {
    let unchanged = get_qualitative_metrics(false);
    let changed = get_qualitative_metrics(true);
    assert_eq!(unchanged.weight(MetricName::PR, b'L'), Ok(62));
    assert_eq!(changed.weight(MetricName::PR, b'L'), Ok(68));
    assert_eq!(changed.weight(MetricName::PR, b'N'), Ok(85));
    assert_eq!(unchanged.weight(MetricName::AV, b'N'), Ok(20));
    assert_eq!(unchanged.weight(MetricName::AV, b'A'), Ok(62));
    assert_eq!(unchanged.weight(MetricName::AV, b'L'), Ok(55));
    assert_eq!(unchanged.weight(MetricName::AV, b'P'), Ok(20));
    assert_eq!(unchanged.weight(MetricName::AC, b'H'), Ok(44));
    assert_eq!(unchanged.weight(MetricName::UI, b'R'), Ok(62));
    assert_eq!(unchanged.weight(MetricName::C, b'H'), Ok(56));
    assert_eq!(unchanged.weight(MetricName::I, b'L'), Ok(22));
    assert_eq!(unchanged.weight(MetricName::A, b'N'), Ok(0));
    assert_eq!(unchanged.weight(MetricName::AC, b'N'), Err(CvssError::UnknownMetricLetter));
}

#[test]
fn calculator_formula_values() {
    // 6.42 * 0.22 = 1.4124, rounded up
    assert_eq!(vulnerability_calculate(metrics([0, 0, 0, 0, 22, 0, 0], false)), 15);
    // capped at 10.0
    assert_eq!(vulnerability_calculate(metrics([100, 100, 100, 100, 56, 56, 56], true)), 100);
    assert_eq!(vulnerability_calculate(metrics([100, 100, 100, 100, 56, 0, 0], false)), 100);
    assert_eq!(vulnerability_calculate(metrics([62, 44, 68, 85, 56, 22, 0], true)), 64);
}

#[test]
fn rating_band_boundaries() {
    assert_eq!(get_rating(0, 10), Rating::Negligible);
    assert_eq!(get_rating(1, 10), Rating::Low);
    assert_eq!(get_rating(39, 10), Rating::Low);
    assert_eq!(get_rating(40, 10), Rating::Medium);
    assert_eq!(get_rating(69, 10), Rating::Medium);
    assert_eq!(get_rating(70, 10), Rating::High);
    assert_eq!(get_rating(89, 10), Rating::High);
    assert_eq!(get_rating(90, 10), Rating::Critical);
    assert_eq!(get_rating(100, 10), Rating::Critical);
    assert_eq!(get_rating(101, 10), Rating::Invalid);
    assert_eq!(get_rating(-1, 10), Rating::Invalid);
    assert_eq!(get_rating(999, 10_000), Rating::Negligible);
    assert_eq!(get_rating(i64::MAX, 1), Rating::Invalid);
    assert_eq!(get_rating(i64::MIN, u64::MAX), Rating::Invalid);
}

#[test]
fn rating_is_monotonic_over_tenths() {
    let mut last = 0;
    for t in 0..=100i64 {
        let r = get_rating(t, 10);
        let rank = match r {
            Rating::Negligible => 0,
            Rating::Low => 1,
            Rating::Medium => 2,
            Rating::High => 3,
            Rating::Critical => 4,
            Rating::Invalid => 5,
        };
        assert!(rank >= last && rank <= 4);
        last = rank;
    }
}

#[test]
fn rating_labels() {
    assert_eq!(Rating::Negligible.label(), "None");
    assert_eq!(Rating::Low.label(), "Low");
    assert_eq!(Rating::High.label(), "High");
    assert_eq!(Rating::Critical.label(), "Critical");
    assert_eq!(Rating::Invalid.label(), "Invalid Value");
}
