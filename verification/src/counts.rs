//! Core data model: calendar dates and timestamps as plain values, the
//! per-reading and per-day count records, and the absent-absorbing addition
//! that all summing in the pipeline goes through.

use vstd::prelude::*;

verus! {

/// A calendar date. Plain fields so that contracts can speak of them directly.
#[derive(Clone, Copy, Debug, PartialEq, Eq, Structural)]
pub struct Date {
    pub year: i32,
    pub month: u32,
    pub day: u32,
}

impl Date {
    /// The ranges a parsed date always satisfies.
    pub open spec fn valid(self) -> bool {
        1 <= self.month <= 12 && 1 <= self.day <= 31
    }
}

/// A timestamp with minute resolution: one reading per 15-minute interval.
#[derive(Clone, Copy, Debug, PartialEq, Eq, Structural)]
pub struct Timestamp {
    pub date: Date,
    pub hour: u32,
    pub minute: u32,
}

impl Timestamp {
    pub open spec fn valid(self) -> bool {
        self.date.valid() && self.hour < 24 && self.minute < 60
    }
}

/// A structural failure of one station's column slice: the station's
/// capability flags disagree with the number of columns handed to it.
#[derive(Clone, Copy, Debug, PartialEq, Eq, Structural)]
pub enum CountError {
    /// Three columns were given but the flags ask for both pedestrian and
    /// bicycle pairs, which need five.
    TooFew,
    /// Five columns were given but the flags do not ask for both pairs.
    TooMany,
    /// The slice was neither three nor five columns wide.
    UnexpectedArity,
}

impl CountError {
    /// What `message` returns for each variant.
    pub open spec fn message_spec(&self) -> Seq<char> {
        match self {
            CountError::TooFew => "misconfiguration of count: expected more fields"@,
            CountError::TooMany => "misconfiguration of count: expected fewer fields"@,
            CountError::UnexpectedArity => "expected 3 or 5 fields, got a different amount"@,
        }
    }

    /// A human-readable description of the failure.
    pub fn message(&self) -> (r: &'static str)
        ensures
            r@ == self.message_spec(),
    {
        match self {
            CountError::TooFew => "misconfiguration of count: expected more fields",
            CountError::TooMany => "misconfiguration of count: expected fewer fields",
            CountError::UnexpectedArity => "expected 3 or 5 fields, got a different amount",
        }
    }
}

/// Why a run was aborted with no data loaded.
#[derive(Clone, Copy, Debug, PartialEq, Eq, Structural)]
pub enum ImportError {
    /// A row's timestamp could not be parsed, or the file's text could not be
    /// read as rows at all.
    Parse,
    /// The declared header row differs from the expected one, or is missing.
    HeaderMismatch,
    /// A station's capability flags disagree with its column span.
    Layout(CountError),
}

impl ImportError {
    /// A human-readable description of the failure.
    pub fn message(&self) -> (r: &'static str)
        ensures
            *self is Parse ==> r@ == "could not parse the file"@,
            *self is HeaderMismatch ==> r@ == "header does not match expected header"@,
            self matches ImportError::Layout(e) ==> r@ == e.message_spec(),
    {
        match self {
            ImportError::Parse => "could not parse the file",
            ImportError::HeaderMismatch => "header does not match expected header",
            ImportError::Layout(e) => e.message(),
        }
    }
}

/// Absent-absorbing addition over mathematical integers: a missing operand
/// acts as the identity, so "no data" is distinct from "zero traffic" and
/// survives until a present addend appears.
pub open spec fn spec_opt_add(a: Option<int>, b: Option<int>) -> Option<int> {
    match (a, b) {
        (Option::None, Option::None) => Option::None,
        (Option::Some(x), Option::None) => Option::Some(x),
        (Option::None, Option::Some(y)) => Option::Some(y),
        (Option::Some(x), Option::Some(y)) => Option::Some(x + y),
    }
}

/// Lift an optional machine integer to an optional mathematical integer.
pub open spec fn opt_int32(a: Option<i32>) -> Option<int> {
    match a {
        Option::None => Option::None,
        Option::Some(x) => Option::Some(x as int),
    }
}

/// Lift an optional wide total to an optional mathematical integer.
pub open spec fn opt_int(a: Option<i128>) -> Option<int> {
    match a {
        Option::None => Option::None,
        Option::Some(x) => Option::Some(x as int),
    }
}

/// The one nullable-sum operation used uniformly by decoding and aggregation.
pub fn nullable_sum(a: Option<i128>, b: Option<i128>) -> (r: Option<i128>)
    requires
        spec_opt_add(opt_int(a), opt_int(b)) matches Some(v) ==> i128::MIN <= v <= i128::MAX,
    ensures
        opt_int(r) == spec_opt_add(opt_int(a), opt_int(b)),
{
    match (a, b) {
        (None, None) => None,
        (Some(x), None) => Some(x),
        (None, Some(y)) => Some(y),
        (Some(x), Some(y)) => Some(x + y),
    }
}

/// One timestamped reading for one station. The five measures are optional:
/// an empty or unparseable field is absent, never zero.
#[derive(Clone, Copy, Debug, PartialEq, Eq)]
pub struct IndividualCount {
    pub location_id: i32,
    pub datetime: Timestamp,
    pub total: Option<i32>,
    pub ped_in: Option<i32>,
    pub ped_out: Option<i32>,
    pub bike_in: Option<i32>,
    pub bike_out: Option<i32>,
}

/// What decoding one station's slice of a row yields: the slice starts with
/// the station's own total and continues with either one directional pair or
/// both, as the capability flags say.
pub open spec fn spec_new_count(
    location_id: i32,
    datetime: Timestamp,
    counts: Seq<Option<i32>>,
    ped: bool,
    bike: bool,
) -> Result<IndividualCount, CountError> {
    if counts.len() == 5 {
        if ped && bike {
            Result::Ok(
                IndividualCount {
                    location_id,
                    datetime,
                    total: counts[0],
                    ped_in: counts[1],
                    ped_out: counts[2],
                    bike_in: counts[3],
                    bike_out: counts[4],
                },
            )
        } else {
            Result::Err(CountError::TooMany)
        }
    } else if counts.len() == 3 {
        if ped != bike {
            if ped {
                Result::Ok(
                    IndividualCount {
                        location_id,
                        datetime,
                        total: counts[0],
                        ped_in: counts[1],
                        ped_out: counts[2],
                        bike_in: Option::None,
                        bike_out: Option::None,
                    },
                )
            } else {
                Result::Ok(
                    IndividualCount {
                        location_id,
                        datetime,
                        total: counts[0],
                        ped_in: Option::None,
                        ped_out: Option::None,
                        bike_in: counts[1],
                        bike_out: counts[2],
                    },
                )
            }
        } else {
            Result::Err(CountError::TooFew)
        }
    } else {
        Result::Err(CountError::UnexpectedArity)
    }
}

impl IndividualCount {
    /// Decode one station's slice of a row. `counts` starts with the total
    /// column; a five-column slice carries both the pedestrian and bicycle
    /// pairs and requires both flags, a three-column slice carries exactly
    /// one pair and requires exactly one flag.
    pub fn new(
        location_id: i32,
        datetime: Timestamp,
        counts: &[Option<i32>],
        ped: bool,
        bike: bool,
    ) -> (r: Result<IndividualCount, CountError>)
        ensures
            r == spec_new_count(location_id, datetime, counts@, ped, bike),
    {
        if counts.len() == 5 {
            if ped && bike {
                Ok(
                    IndividualCount {
                        location_id,
                        datetime,
                        total: counts[0],
                        ped_in: counts[1],
                        ped_out: counts[2],
                        bike_in: counts[3],
                        bike_out: counts[4],
                    },
                )
            } else {
                Err(CountError::TooMany)
            }
        } else if counts.len() == 3 {
            if ped != bike {
                if ped {
                    Ok(
                        IndividualCount {
                            location_id,
                            datetime,
                            total: counts[0],
                            ped_in: counts[1],
                            ped_out: counts[2],
                            bike_in: None,
                            bike_out: None,
                        },
                    )
                } else {
                    Ok(
                        IndividualCount {
                            location_id,
                            datetime,
                            total: counts[0],
                            ped_in: None,
                            ped_out: None,
                            bike_in: counts[1],
                            bike_out: counts[2],
                        },
                    )
                }
            } else {
                Err(CountError::TooFew)
            }
        } else {
            Err(CountError::UnexpectedArity)
        }
    }
}

/// One daily rollup per station: the pedestrian and bicycle day totals summed
/// with absent-absorbing addition, and the day's sum of the source's own
/// total column, kept verbatim rather than recomputed. The totals are wide
/// enough that summing 32-bit readings cannot overflow them, however many
/// rows a run holds.
#[derive(Clone, Copy, Debug, PartialEq, Eq)]
pub struct AggregatedCount {
    pub location_id: i32,
    pub date: Date,
    pub total_ped: Option<i128>,
    pub total_bike: Option<i128>,
    pub total: Option<i128>,
}

impl AggregatedCount {
    pub fn new(
        location_id: i32,
        date: Date,
        total_ped: Option<i128>,
        total_bike: Option<i128>,
        total: Option<i128>,
    ) -> (r: Self)
        ensures
            r == (AggregatedCount { location_id, date, total_ped, total_bike, total }),
    {
        Self { location_id, date, total_ped, total_bike, total }
    }
}

} // verus!
