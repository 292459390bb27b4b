//! Fitted data of a single benchmark: the cost coefficients that remain
//! after the all-zero slopes are filtered out, and the component list with
//! its used/unused marks.

use vstd::prelude::*;
use frame_benchmarking::{BenchmarkBatch, BenchmarkParameter, BenchmarkSelector};

use crate::fits::decoded_utf8;
use crate::fits::fit_inputs;
use crate::fits::fit_of;
use crate::fits::min_squares_fit;
use crate::fits::param_index;
use crate::fits::param_name;
use crate::fits::param_name_spec;
use crate::fits::utf8_string;
use crate::fits::LinearFit;
use crate::fits::LinearFitView;
use crate::fits::Metric;
use crate::fits::MAX_SAMPLE_TIME;

verus! {

/// Why a batch of measurements could not be turned into benchmark data.
#[derive(Debug, Clone, Copy, PartialEq, Eq, Structural)]
pub enum WriteError {
    /// No batches were given at all.
    EmptyBatches,
    /// A pallet or benchmark name is not valid UTF-8.
    InvalidName,
    /// The regression routine returned no fit for one of the metrics.
    FailedFit,
}

/// A benchmark component and whether any fitted slope uses it.
#[derive(Debug, Clone, PartialEq, Eq)]
pub struct Component {
    pub name: String,
    pub is_used: bool,
}

/// The mathematical content of a `Component`.
pub struct ComponentView {
    pub name: Seq<char>,
    pub is_used: bool,
}

impl View for Component {
    type V = ComponentView;

    open spec fn view(&self) -> ComponentView {
        ComponentView { name: self.name@, is_used: self.is_used }
    }
}

/// The fitted slope of some benchmark cost in one component.
#[derive(Debug, Clone, PartialEq, Eq)]
pub struct ComponentSlope {
    pub name: String,
    pub slope: u128,
}

/// The mathematical content of a `ComponentSlope`.
pub struct ComponentSlopeView {
    pub name: Seq<char>,
    pub slope: u128,
}

impl View for ComponentSlope {
    type V = ComponentSlopeView;

    open spec fn view(&self) -> ComponentSlopeView {
        ComponentSlopeView { name: self.name@, slope: self.slope }
    }
}

/// Everything the generated file needs to know about one benchmark.
#[derive(Debug, Clone)]
pub struct BenchmarkData {
    pub name: String,
    pub components: Vec<Component>,
    pub base_weight: u128,
    pub base_reads: u128,
    pub base_writes: u128,
    pub component_weight: Vec<ComponentSlope>,
    pub component_reads: Vec<ComponentSlope>,
    pub component_writes: Vec<ComponentSlope>,
}

/// The mathematical content of a `BenchmarkData`.
pub struct BenchmarkDataView {
    pub name: Seq<char>,
    pub components: Seq<ComponentView>,
    pub base_weight: u128,
    pub base_reads: u128,
    pub base_writes: u128,
    pub component_weight: Seq<ComponentSlopeView>,
    pub component_reads: Seq<ComponentSlopeView>,
    pub component_writes: Seq<ComponentSlopeView>,
}

impl View for BenchmarkData {
    type V = BenchmarkDataView;

    open spec fn view(&self) -> BenchmarkDataView {
        BenchmarkDataView {
            name: self.name@,
            components: self.components@.map_values(|c: Component| c@),
            base_weight: self.base_weight,
            base_reads: self.base_reads,
            base_writes: self.base_writes,
            component_weight: self.component_weight@.map_values(|c: ComponentSlope| c@),
            component_reads: self.component_reads@.map_values(|c: ComponentSlope| c@),
            component_writes: self.component_writes@.map_values(|c: ComponentSlope| c@),
        }
    }
}

/// The named slopes of a fit whose slope is not zero, in fit order, pairing
/// the i-th name with the i-th slope.
pub open spec fn used_pairs(names: Seq<Seq<char>>, slopes: Seq<u128>) -> Seq<ComponentSlopeView>
    decreases names.len(),
{
    if names.len() == 0 || slopes.len() == 0 {
        Seq::empty()
    } else {
        let rest = used_pairs(names.drop_first(), slopes.drop_first());
        if slopes.first() != 0 {
            seq![ComponentSlopeView { name: names.first(), slope: slopes.first() }] + rest
        } else {
            rest
        }
    }
}

/// Whether a fit gives the named component a slope other than zero.
pub open spec fn fit_uses(f: LinearFitView, name: Seq<char>) -> bool {
    exists|i: int|
        0 <= i < f.names.len() && i < f.slopes.len() && f.names[i] == name && f.slopes[i] != 0
}

/// The component list of a benchmark: every component of the first
/// measurement, marked used when any of the three fits gives it a
/// slope other than zero.
pub open spec fn component_marks(
    comps: Seq<(BenchmarkParameter, u32)>,
    time: LinearFitView,
    reads: LinearFitView,
    writes: LinearFitView,
) -> Seq<ComponentView> {
    comps.map_values(
        |c: (BenchmarkParameter, u32)| ComponentView {
            name: param_name_spec(param_index(c.0)),
            is_used: fit_uses(time, param_name_spec(param_index(c.0))) || fit_uses(
                reads,
                param_name_spec(param_index(c.0)),
            ) || fit_uses(writes, param_name_spec(param_index(c.0))),
        },
    )
}

/// The benchmark data that three fits and a component list determine: the
/// bases are the fits' intercepts, the per-component slopes keep only the
/// entries whose slope is not zero, and the component list is marked for use.
pub open spec fn benchmark_data_spec(
    name: Seq<char>,
    comps: Seq<(BenchmarkParameter, u32)>,
    time: LinearFitView,
    reads: LinearFitView,
    writes: LinearFitView,
) -> BenchmarkDataView {
    BenchmarkDataView {
        name: name,
        components: component_marks(comps, time, reads, writes),
        base_weight: time.base,
        base_reads: reads.base,
        base_writes: writes.base,
        component_weight: used_pairs(time.names, time.slopes),
        component_reads: used_pairs(reads.names, reads.slopes),
        component_writes: used_pairs(writes.names, writes.slopes),
    }
}

/// Appending one name/slope pair extends the filtered pairs by that pair
/// exactly when its slope is not zero.
proof fn lemma_used_pairs_push(names: Seq<Seq<char>>, slopes: Seq<u128>, n: Seq<char>, s: u128)
    requires
        names.len() == slopes.len(),
    ensures
        used_pairs(names.push(n), slopes.push(s)) == used_pairs(names, slopes) + (if s != 0 {
            seq![ComponentSlopeView { name: n, slope: s }]
        } else {
            Seq::empty()
        }),
    decreases names.len(),
{
    if names.len() == 0 {
        let pn = names.push(n);
        let ps = slopes.push(s);
        assert(pn.drop_first() =~= names);
        assert(ps.drop_first() =~= slopes);
        assert(pn.first() == n);
        assert(ps.first() == s);
        assert(used_pairs(names, slopes) == Seq::<ComponentSlopeView>::empty());
        assert(used_pairs(pn, ps) == if s != 0 {
            seq![ComponentSlopeView { name: n, slope: s }] + used_pairs(names, slopes)
        } else {
            used_pairs(names, slopes)
        });
        assert(used_pairs(pn, ps) =~= used_pairs(names, slopes) + (if s != 0 {
            seq![ComponentSlopeView { name: n, slope: s }]
        } else {
            Seq::empty()
        }));
    } else {
        assert(names.push(n).drop_first() =~= names.drop_first().push(n));
        assert(slopes.push(s).drop_first() =~= slopes.drop_first().push(s));
        lemma_used_pairs_push(names.drop_first(), slopes.drop_first(), n, s);
        assert(names.push(n).first() == names.first());
        assert(slopes.push(s).first() == slopes.first());
        assert(used_pairs(names.push(n), slopes.push(s)) =~= used_pairs(names, slopes) + (if s
            != 0 {
            seq![ComponentSlopeView { name: n, slope: s }]
        } else {
            Seq::empty()
        }));
    }
}

/// The filtered pairs read only the aligned prefix of the two lists.
proof fn lemma_used_pairs_min(names: Seq<Seq<char>>, slopes: Seq<u128>, m: int)
    requires
        m == if names.len() <= slopes.len() {
            names.len() as int
        } else {
            slopes.len() as int
        },
    ensures
        used_pairs(names, slopes) == used_pairs(names.take(m), slopes.take(m)),
    decreases names.len(),
{
    if names.len() == 0 || slopes.len() == 0 {
        assert(names.take(m) =~= names.take(0));
        assert(names.take(0) =~= Seq::<Seq<char>>::empty());
        assert(slopes.take(0) =~= Seq::<u128>::empty());
        assert(slopes.take(m) =~= slopes.take(0));
    } else {
        lemma_used_pairs_min(names.drop_first(), slopes.drop_first(), m - 1);
        assert(names.take(m).drop_first() =~= names.drop_first().take(m - 1));
        assert(slopes.take(m).drop_first() =~= slopes.drop_first().take(m - 1));
        assert(names.take(m).first() == names.first());
        assert(slopes.take(m).first() == slopes.first());
    }
}

/// Keep the named slopes of a fit whose slope is not zero, in fit order.
fn used_slopes(fit: &LinearFit) -> (out: Vec<ComponentSlope>)
    ensures
        out@.map_values(|c: ComponentSlope| c@) == used_pairs(fit@.names, fit@.slopes),
{
    let n = if fit.names.len() <= fit.slopes.len() {
        fit.names.len()
    } else {
        fit.slopes.len()
    };
    let mut out: Vec<ComponentSlope> = Vec::new();
    let mut i: usize = 0;
    while i < n
        invariant
            i <= n,
            n == if fit@.names.len() <= fit@.slopes.len() {
                fit@.names.len()
            } else {
                fit@.slopes.len()
            },
            out@.map_values(|c: ComponentSlope| c@) == used_pairs(
                fit@.names.take(i as int),
                fit@.slopes.take(i as int),
            ),
        decreases n - i,
    {
        let slope = fit.slopes[i];
        proof {
            lemma_used_pairs_push(
                fit@.names.take(i as int),
                fit@.slopes.take(i as int),
                fit@.names[i as int],
                fit@.slopes[i as int],
            );
            assert(fit@.names.take(i as int + 1) =~= fit@.names.take(i as int).push(
                fit@.names[i as int],
            ));
            assert(fit@.slopes.take(i as int + 1) =~= fit@.slopes.take(i as int).push(
                fit@.slopes[i as int],
            ));
        }
        if slope != 0 {
            let entry = ComponentSlope { name: fit.names[i].clone(), slope };
            out.push(entry);
            proof {
                assert(out@.map_values(|c: ComponentSlope| c@) =~= out@.drop_last().map_values(
                    |c: ComponentSlope| c@,
                ).push(ComponentSlopeView { name: fit@.names[i as int], slope: fit@.slopes[i as int] }));
                assert(out@.map_values(|c: ComponentSlope| c@) =~= used_pairs(
                    fit@.names.take(i as int + 1),
                    fit@.slopes.take(i as int + 1),
                ));
            }
        }
        i += 1;
    }
    proof {
        lemma_used_pairs_min(fit@.names, fit@.slopes, n as int);
    }
    out
}

/// Whether any entry of the fit names this component with a slope other
/// than zero.
fn name_used(fit: &LinearFit, name: &String) -> (b: bool)
    ensures
        b == fit_uses(fit@, name@),
{
    let n = if fit.names.len() <= fit.slopes.len() {
        fit.names.len()
    } else {
        fit.slopes.len()
    };
    let mut i: usize = 0;
    while i < n
        invariant
            i <= n,
            n == if fit@.names.len() <= fit@.slopes.len() {
                fit@.names.len()
            } else {
                fit@.slopes.len()
            },
            forall|j: int|
                0 <= j < i ==> !(fit@.names[j] == name@ && fit@.slopes[j] != 0),
        decreases n - i,
    {
        if fit.slopes[i] != 0 && fit.names[i] == *name {
            return true;
        }
        i += 1;
    }
    false
}

/// Assemble the benchmark data that three fits determine, with the
/// component list of the first measurement marked for use.
pub fn benchmark_data_from(
    name: String,
    comps: &Vec<(BenchmarkParameter, u32)>,
    time: &LinearFit,
    reads: &LinearFit,
    writes: &LinearFit,
) -> (d: BenchmarkData)
    ensures
        d@ == benchmark_data_spec(name@, comps@, time@, reads@, writes@),
{
    let component_weight = used_slopes(time);
    let component_reads = used_slopes(reads);
    let component_writes = used_slopes(writes);

    let ghost marks = component_marks(comps@, time@, reads@, writes@);
    let mut components: Vec<Component> = Vec::new();
    let mut i: usize = 0;
    while i < comps.len()
        invariant
            i <= comps@.len(),
            components@.len() == i,
            marks == component_marks(comps@, time@, reads@, writes@),
            forall|j: int| 0 <= j < i ==> (#[trigger] components@[j])@ == marks[j],
        decreases comps@.len() - i,
    {
        let pname = param_name(&comps[i].0);
        let is_used = name_used(time, &pname) || name_used(reads, &pname) || name_used(
            writes,
            &pname,
        );
        components.push(Component { name: pname, is_used });
        proof {
            assert(marks[i as int] == ComponentView {
                name: param_name_spec(param_index(comps@[i as int].0)),
                is_used: fit_uses(time@, param_name_spec(param_index(comps@[i as int].0)))
                    || fit_uses(reads@, param_name_spec(param_index(comps@[i as int].0)))
                    || fit_uses(writes@, param_name_spec(param_index(comps@[i as int].0))),
            });
        }
        i += 1;
    }
    proof {
        assert(components@.map_values(|c: Component| c@) =~= marks);
    }

    BenchmarkData {
        name,
        components,
        base_weight: time.base,
        base_reads: reads.base,
        base_writes: writes.base,
        component_weight,
        component_reads,
        component_writes,
    }
}

/// Whether a batch's measurements stay within the bounds under which the
/// regression routine is called.
pub open spec fn batch_bounded(b: BenchmarkBatch) -> bool {
    b.results@.len() <= u32::MAX && forall|i: int|
        0 <= i < b.results@.len() ==> (#[trigger] b.results@[i]).extrinsic_time <= MAX_SAMPLE_TIME
            && b.results@[i].storage_root_time <= MAX_SAMPLE_TIME
}

/// The fit of a batch's measurements for one metric.
pub open spec fn batch_fit(b: BenchmarkBatch, m: Metric) -> Option<LinearFitView> {
    fit_of(fit_inputs(b.results@), m)
}

/// Whether the regression routine fits all three metrics of a batch.
pub open spec fn batch_fits_ok(b: BenchmarkBatch) -> bool {
    batch_fit(b, Metric::ExtrinsicTime) is Some && batch_fit(b, Metric::Reads) is Some
        && batch_fit(b, Metric::Writes) is Some
}

/// The error a batch runs into, if any: an undecodable benchmark name, or
/// a metric the regression routine returns no fit for.
pub open spec fn batch_error(b: BenchmarkBatch) -> Option<WriteError> {
    if decoded_utf8(b.benchmark@) is None {
        Some(WriteError::InvalidName)
    } else if !batch_fits_ok(b) {
        Some(WriteError::FailedFit)
    } else {
        None
    }
}

/// The benchmark data of a batch that runs into no error.
pub open spec fn batch_data_spec(b: BenchmarkBatch) -> BenchmarkDataView {
    benchmark_data_spec(
        decoded_utf8(b.benchmark@).unwrap(),
        b.results@[0].components@,
        batch_fit(b, Metric::ExtrinsicTime).unwrap(),
        batch_fit(b, Metric::Reads).unwrap(),
        batch_fit(b, Metric::Writes).unwrap(),
    )
}

/// Fit the three cost metrics of one batch and assemble its benchmark data:
/// the benchmark's decoded name, its component list marked for use, and the
/// filtered base and per-component cost coefficients.
pub fn get_benchmark_data(batch: &BenchmarkBatch) -> (r: Result<BenchmarkData, WriteError>)
    requires
        batch.results@.len() > 0,
        batch_bounded(*batch),
    ensures
        match r {
            Ok(d) => batch_error(*batch) is None && d@ == batch_data_spec(*batch),
            Err(e) => batch_error(*batch) == Some(e),
        },
{
    let name = match utf8_string(&batch.benchmark) {
        Some(s) => s,
        None => { return Err(WriteError::InvalidName) },
    };
    let time = match min_squares_fit(&batch.results, BenchmarkSelector::ExtrinsicTime) {
        Some(f) => f,
        None => { return Err(WriteError::FailedFit) },
    };
    let reads = match min_squares_fit(&batch.results, BenchmarkSelector::Reads) {
        Some(f) => f,
        None => { return Err(WriteError::FailedFit) },
    };
    let writes = match min_squares_fit(&batch.results, BenchmarkSelector::Writes) {
        Some(f) => f,
        None => { return Err(WriteError::FailedFit) },
    };
    Ok(benchmark_data_from(name, &batch.results[0].components, &time, &reads, &writes))
}

} // verus!
