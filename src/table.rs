use crate::error::CvssError;
use vstd::prelude::*;

verus! {

/// The seven metrics that carry a weight.
#[derive(Clone, Copy, Debug, PartialEq, Eq, Structural)]
pub enum MetricName {
    AV,
    AC,
    PR,
    UI,
    C,
    I,
    A,
}

/// The weight, in hundredths, of `letter` for metric `name`; privileges
/// required weigh more when the scope is changed.
pub open spec fn weight_of(name: MetricName, letter: u8, changed: bool) -> Option<u64> {
    let n = 'N' as u8;
    let l = 'L' as u8;
    let h = 'H' as u8;
    match name {
        MetricName::AV => if letter == n {
            Some(20)
        } else if letter == 'A' as u8 {
            Some(62)
        } else if letter == l {
            Some(55)
        } else if letter == 'P' as u8 {
            Some(20)
        } else {
            None
        },
        MetricName::AC => if letter == l {
            Some(77)
        } else if letter == h {
            Some(44)
        } else {
            None
        },
        MetricName::PR => if letter == n {
            Some(85)
        } else if letter == l {
            Some(if changed { 68 } else { 62 })
        } else if letter == h {
            Some(27)
        } else {
            None
        },
        MetricName::UI => if letter == n {
            Some(85)
        } else if letter == 'R' as u8 {
            Some(62)
        } else {
            None
        },
        MetricName::C | MetricName::I | MetricName::A => if letter == h {
            Some(56)
        } else if letter == l {
            Some(22)
        } else if letter == n {
            Some(0)
        } else {
            None
        },
    }
}

/// The qualitative table for one scope.
#[derive(Clone, Copy, Debug, PartialEq, Eq, Structural)]
pub struct QualitativeMetrics {
    pub is_changed: bool,
}

/// The qualitative table for a changed (`true`) or unchanged scope.
pub fn get_qualitative_metrics(is_changed: bool) -> (r: QualitativeMetrics)
    ensures
        r.is_changed == is_changed,
{
    QualitativeMetrics { is_changed }
}

impl QualitativeMetrics {
    /// The weight, in hundredths, of `letter` for metric `name`.
    pub fn weight(&self, name: MetricName, letter: u8) -> (r: Result<u64, CvssError>)
        ensures
            r == match weight_of(name, letter, self.is_changed) {
                Some(w) => Ok::<u64, CvssError>(w),
                None => Err(CvssError::UnknownMetricLetter),
            },
    {
        let n = 'N' as u8;
        let l = 'L' as u8;
        let h = 'H' as u8;
        let w = match name {
            MetricName::AV => if letter == n {
                Some(20)
            } else if letter == 'A' as u8 {
                Some(62)
            } else if letter == l {
                Some(55)
            } else if letter == 'P' as u8 {
                Some(20)
            } else {
                None
            },
            MetricName::AC => if letter == l {
                Some(77)
            } else if letter == h {
                Some(44)
            } else {
                None
            },
            MetricName::PR => if letter == n {
                Some(85)
            } else if letter == l {
                Some(if self.is_changed { 68 } else { 62 })
            } else if letter == h {
                Some(27)
            } else {
                None
            },
            MetricName::UI => if letter == n {
                Some(85)
            } else if letter == 'R' as u8 {
                Some(62)
            } else {
                None
            },
            MetricName::C | MetricName::I | MetricName::A => if letter == h {
                Some(56)
            } else if letter == l {
                Some(22)
            } else if letter == n {
                Some(0)
            } else {
                None
            },
        };
        match w {
            Some(w) => Ok(w),
            None => Err(CvssError::UnknownMetricLetter),
        }
    }
}

} // verus!
