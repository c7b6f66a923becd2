//! CVSS v3.1 base scores: a parser for base vectors, the qualitative weight
//! table, the scoring formula in exact integer arithmetic, and the severity
//! rating of a score.
use vstd::prelude::*;
use vstd::string::StringSliceAdditionalSpecFns;

pub mod error;
pub mod rating;
pub mod score;
pub mod table;
pub mod vector;

use crate::error::CvssError;
use crate::score::{base_score, vulnerability_calculate, Metrics};
use crate::table::{get_qualitative_metrics, weight_of, MetricName};
use crate::vector::{
    first_vector, has_scope, has_vector, letters_at, parse_cvss, parse_scope, scope_of, vector_at,
    allowed_at, BaseVector,
};

verus! {

/// The weights that the qualitative table gives to the letters of `v`.
pub open spec fn resolved(v: BaseVector, changed: bool) -> Metrics {
    Metrics {
        av: weight_of(MetricName::AV, v.av, changed)->Some_0,
        ac: weight_of(MetricName::AC, v.ac, changed)->Some_0,
        pr: weight_of(MetricName::PR, v.pr, changed)->Some_0,
        ui: weight_of(MetricName::UI, v.ui, changed)->Some_0,
        c: weight_of(MetricName::C, v.c, changed)->Some_0,
        i: weight_of(MetricName::I, v.i, changed)->Some_0,
        a: weight_of(MetricName::A, v.a, changed)->Some_0,
        sc: changed,
    }
}

/// The outcome of scoring the text `b`, with the score in tenths: the scope
/// comes from the first scope field, the letters from the first base vector.
pub open spec fn cvss_score(b: Seq<u8>) -> Result<int, CvssError> {
    if !has_scope(b) {
        Err(CvssError::MissingScope)
    } else if !has_vector(b) {
        Err(CvssError::MalformedVector)
    } else {
        Ok(base_score(resolved(letters_at(b, first_vector(b)), scope_of(b))))
    }
}

proof fn lemma_letters_allowed(b: Seq<u8>, i: int)
    requires
        vector_at(b, i),
    ensures
        allowed_at(12, b[i + 12]),
        allowed_at(17, b[i + 17]),
        allowed_at(22, b[i + 22]),
        allowed_at(27, b[i + 27]),
        allowed_at(35, b[i + 35]),
        allowed_at(39, b[i + 39]),
        allowed_at(43, b[i + 43]),
{
    assert(allowed_at(12, b[i + 12]));
    assert(allowed_at(17, b[i + 17]));
    assert(allowed_at(22, b[i + 22]));
    assert(allowed_at(27, b[i + 27]));
    assert(allowed_at(35, b[i + 35]));
    assert(allowed_at(39, b[i + 39]));
    assert(allowed_at(43, b[i + 43]));
}

/// Scores a CVSS v3.1 vector: the base score in tenths (`64` is `6.4`).
pub fn vulnerability_calculate_cvss(cvss_vector: &str) -> (r: Result<u64, CvssError>)
    ensures
        r is Ok ==> cvss_score(cvss_vector.spec_bytes()) == Ok::<int, CvssError>(r->Ok_0 as int),
        r is Ok ==> r->Ok_0 <= 100,
        r is Err ==> cvss_score(cvss_vector.spec_bytes()) == Err::<int, CvssError>(r->Err_0),
{
    let is_changed = match parse_scope(cvss_vector) {
        Ok(c) => c,
        Err(e) => return Err(e),
    };
    let table = get_qualitative_metrics(is_changed);
    let caps = match parse_cvss(cvss_vector) {
        Ok(v) => v,
        Err(e) => return Err(e),
    };
    proof {
        let b = cvss_vector.spec_bytes();
        lemma_letters_allowed(b, first_vector(b));
    }
    let av = match table.weight(MetricName::AV, caps.av) {
        Ok(w) => w,
        Err(e) => return Err(e),
    };
    let ac = match table.weight(MetricName::AC, caps.ac) {
        Ok(w) => w,
        Err(e) => return Err(e),
    };
    let pr = match table.weight(MetricName::PR, caps.pr) {
        Ok(w) => w,
        Err(e) => return Err(e),
    };
    let ui = match table.weight(MetricName::UI, caps.ui) {
        Ok(w) => w,
        Err(e) => return Err(e),
    };
    let c = match table.weight(MetricName::C, caps.c) {
        Ok(w) => w,
        Err(e) => return Err(e),
    };
    let i = match table.weight(MetricName::I, caps.i) {
        Ok(w) => w,
        Err(e) => return Err(e),
    };
    let a = match table.weight(MetricName::A, caps.a) {
        Ok(w) => w,
        Err(e) => return Err(e),
    };
    let metrics = Metrics { av, ac, pr, ui, c, i, a, sc: is_changed };
    Ok(vulnerability_calculate(metrics))
}

/// Scoring depends on the text alone: two texts with the same characters get
/// the same outcome, so scoring one vector twice gives the same value.
pub proof fn lemma_score_deterministic(s1: &str, s2: &str)
    requires
        s1@ == s2@,
    ensures
        cvss_score(s1.spec_bytes()) == cvss_score(s2.spec_bytes()),
{
}

/// Text without a scope field is rejected as missing its scope; text with one
/// but without a base vector of the grammar (another version tag, fields out
/// of order, an unknown letter, a missing field) is rejected as malformed; no
/// text is ever rejected for a letter missing from the table.
pub proof fn lemma_rejections(b: Seq<u8>)
    ensures
        !has_scope(b) ==> cvss_score(b) == Err::<int, CvssError>(CvssError::MissingScope),
        has_scope(b) && !has_vector(b) ==> cvss_score(b) == Err::<int, CvssError>(
            CvssError::MalformedVector,
        ),
        cvss_score(b) != Err::<int, CvssError>(CvssError::UnknownMetricLetter),
{
}

} // verus!
