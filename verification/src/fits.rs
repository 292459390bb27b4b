//! The linear-model fit of a batch of measurements, produced by the
//! external regression routine of `frame_benchmarking`, together with
//! the declarations that let verified code handle that crate's types.

use vstd::prelude::*;
use frame_benchmarking::{BenchmarkBatch, BenchmarkParameter, BenchmarkResult, BenchmarkSelector};

verus! {

#[verifier::external_type_specification]
pub struct ExBenchmarkParameter(BenchmarkParameter);

#[verifier::external_type_specification]
pub struct ExBenchmarkResult(BenchmarkResult);

#[verifier::external_type_specification]
pub struct ExBenchmarkBatch(BenchmarkBatch);

#[verifier::external_type_specification]
pub struct ExBenchmarkSelector(BenchmarkSelector);

/// The position of a benchmark parameter in the alphabet of parameters.
pub open spec fn param_index(param: BenchmarkParameter) -> int {
    match param {
        BenchmarkParameter::a => 0,
        BenchmarkParameter::b => 1,
        BenchmarkParameter::c => 2,
        BenchmarkParameter::d => 3,
        BenchmarkParameter::e => 4,
        BenchmarkParameter::f => 5,
        BenchmarkParameter::g => 6,
        BenchmarkParameter::h => 7,
        BenchmarkParameter::i => 8,
        BenchmarkParameter::j => 9,
        BenchmarkParameter::k => 10,
        BenchmarkParameter::l => 11,
        BenchmarkParameter::m => 12,
        BenchmarkParameter::n => 13,
        BenchmarkParameter::o => 14,
        BenchmarkParameter::p => 15,
        BenchmarkParameter::q => 16,
        BenchmarkParameter::r => 17,
        BenchmarkParameter::s => 18,
        BenchmarkParameter::t => 19,
        BenchmarkParameter::u => 20,
        BenchmarkParameter::v => 21,
        BenchmarkParameter::w => 22,
        BenchmarkParameter::x => 23,
        BenchmarkParameter::y => 24,
        BenchmarkParameter::z => 25,
    }
}

/// The one-letter name under which a benchmark parameter appears in the
/// fitted model and in the generated weight formulas.
pub open spec fn param_name_spec(i: int) -> Seq<char> {
    if i == 0 { "a"@ } else if i == 1 { "b"@ } else if i == 2 { "c"@ }
    else if i == 3 { "d"@ } else if i == 4 { "e"@ } else if i == 5 { "f"@ }
    else if i == 6 { "g"@ } else if i == 7 { "h"@ } else if i == 8 { "i"@ }
    else if i == 9 { "j"@ } else if i == 10 { "k"@ } else if i == 11 { "l"@ }
    else if i == 12 { "m"@ } else if i == 13 { "n"@ } else if i == 14 { "o"@ }
    else if i == 15 { "p"@ } else if i == 16 { "q"@ } else if i == 17 { "r"@ }
    else if i == 18 { "s"@ } else if i == 19 { "t"@ } else if i == 20 { "u"@ }
    else if i == 21 { "v"@ } else if i == 22 { "w"@ } else if i == 23 { "x"@ }
    else if i == 24 { "y"@ } else { "z"@ }
}

/// The name of a benchmark parameter, as the fitted model spells it.
pub fn param_name(param: &BenchmarkParameter) -> (r: String)
    ensures
        r@ == param_name_spec(param_index(*param)),
{
    match param {
        BenchmarkParameter::a => "a".to_owned(),
        BenchmarkParameter::b => "b".to_owned(),
        BenchmarkParameter::c => "c".to_owned(),
        BenchmarkParameter::d => "d".to_owned(),
        BenchmarkParameter::e => "e".to_owned(),
        BenchmarkParameter::f => "f".to_owned(),
        BenchmarkParameter::g => "g".to_owned(),
        BenchmarkParameter::h => "h".to_owned(),
        BenchmarkParameter::i => "i".to_owned(),
        BenchmarkParameter::j => "j".to_owned(),
        BenchmarkParameter::k => "k".to_owned(),
        BenchmarkParameter::l => "l".to_owned(),
        BenchmarkParameter::m => "m".to_owned(),
        BenchmarkParameter::n => "n".to_owned(),
        BenchmarkParameter::o => "o".to_owned(),
        BenchmarkParameter::p => "p".to_owned(),
        BenchmarkParameter::q => "q".to_owned(),
        BenchmarkParameter::r => "r".to_owned(),
        BenchmarkParameter::s => "s".to_owned(),
        BenchmarkParameter::t => "t".to_owned(),
        BenchmarkParameter::u => "u".to_owned(),
        BenchmarkParameter::v => "v".to_owned(),
        BenchmarkParameter::w => "w".to_owned(),
        BenchmarkParameter::x => "x".to_owned(),
        BenchmarkParameter::y => "y".to_owned(),
        BenchmarkParameter::z => "z".to_owned(),
    }
}

/// The cost metric a fit is made for, one per selector of the regression
/// routine.
pub enum Metric {
    ExtrinsicTime,
    StorageRootTime,
    Reads,
    Writes,
    ProofSize,
}

/// The metric that a regression selector stands for.
pub open spec fn selector_metric(s: BenchmarkSelector) -> Metric {
    match s {
        BenchmarkSelector::ExtrinsicTime => Metric::ExtrinsicTime,
        BenchmarkSelector::StorageRootTime => Metric::StorageRootTime,
        BenchmarkSelector::Reads => Metric::Reads,
        BenchmarkSelector::Writes => Metric::Writes,
        BenchmarkSelector::ProofSize => Metric::ProofSize,
    }
}

/// What one measurement contributes to a fit: the component values it was
/// taken at and its cost in each metric.
pub struct FitInput {
    pub components: Seq<(int, u32)>,
    pub extrinsic_time: u128,
    pub storage_root_time: u128,
    pub reads: u32,
    pub writes: u32,
    pub proof_size: u32,
}

/// The part of a measurement that the regression routine reads.
pub open spec fn fit_input(r: BenchmarkResult) -> FitInput {
    FitInput {
        components: r.components@.map_values(
            |c: (BenchmarkParameter, u32)| (param_index(c.0), c.1),
        ),
        extrinsic_time: r.extrinsic_time,
        storage_root_time: r.storage_root_time,
        reads: r.reads,
        writes: r.writes,
        proof_size: r.proof_size,
    }
}

/// The parts of a batch's measurements that the regression routine reads.
pub open spec fn fit_inputs(rs: Seq<BenchmarkResult>) -> Seq<FitInput> {
    rs.map_values(|r: BenchmarkResult| fit_input(r))
}

/// A fitted linear model: an intercept and one slope per named component.
pub struct LinearFit {
    pub base: u128,
    pub slopes: Vec<u128>,
    pub names: Vec<String>,
}

/// The mathematical content of a fitted linear model.
pub struct LinearFitView {
    pub base: u128,
    pub slopes: Seq<u128>,
    pub names: Seq<Seq<char>>,
}

impl View for LinearFit {
    type V = LinearFitView;

    open spec fn view(&self) -> LinearFitView {
        LinearFitView {
            base: self.base,
            slopes: self.slopes@,
            names: self.names@.map_values(|n: String| n@),
        }
    }
}

/// The fit that the external regression routine computes for the given
/// measurements and metric; it depends on those arguments alone.
pub uninterp spec fn fit_of(results: Seq<FitInput>, metric: Metric) -> Option<LinearFitView>;

/// Largest extrinsic or storage-root time a measurement may carry: it keeps
/// the regression routine's internal statistics within its integer type.
pub const MAX_SAMPLE_TIME: u128 = 0xFFFF_FFFF_FFFF;

/// Relies on `frame_benchmarking::Analysis::min_squares_iqr`: a least-squares
/// fit with interquartile-range outlier rejection whose result is a function
/// of the measurements and the selected metric alone. It indexes the first
/// measurement, so the batch may not be empty, and it sums squared deviations
/// of the selected metric in a 128-bit integer, which the bounds on time and
/// batch size keep from overflowing. The slopes it returns are named one per
/// component of the first measurement, or not at all.
#[verifier::external_body]
pub(crate) fn min_squares_fit(results: &Vec<BenchmarkResult>, selector: BenchmarkSelector) -> (r:
    Option<LinearFit>)
    requires
        results@.len() > 0,
        results@.len() <= u32::MAX,
        forall|i: int| 0 <= i < results@.len() ==> (#[trigger] results@[i]).extrinsic_time
            <= MAX_SAMPLE_TIME && results@[i].storage_root_time <= MAX_SAMPLE_TIME,
    ensures
        match r {
            Some(f) => fit_of(fit_inputs(results@), selector_metric(selector)) == Some(f@)
                && f.slopes@.len() == f.names@.len(),
            None => fit_of(fit_inputs(results@), selector_metric(selector)) is None,
        },
{
    frame_benchmarking::Analysis::min_squares_iqr(results, selector).map(
        |a| LinearFit { base: a.base, slopes: a.slopes, names: a.names },
    )
}

/// The characters that a byte sequence spells in UTF-8, if it is valid
/// UTF-8; a sequence of characters has exactly one UTF-8 encoding, so the
/// decoding is injective.
pub uninterp spec fn decoded_utf8(bytes: Seq<u8>) -> Option<Seq<char>>;

/// Relies on `String::from_utf8`: it returns the unique character sequence
/// whose UTF-8 encoding is the given bytes, and an error when the bytes are
/// not valid UTF-8.
#[verifier::external_body]
pub(crate) fn utf8_string(bytes: &Vec<u8>) -> (r: Option<String>)
    ensures
        match r {
            Some(s) => decoded_utf8(bytes@) == Some(s@) && forall|other: Seq<u8>|
                decoded_utf8(other) == Some(s@) ==> other == bytes@,
            None => decoded_utf8(bytes@) is None,
        },
{
    String::from_utf8(bytes.clone()).ok()
}

} // verus!
