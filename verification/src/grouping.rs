//! Grouping of benchmark batches: a flat ordered sequence of batches,
//! contiguous per pallet, becomes a two-level mapping from pallet to
//! benchmark name to fitted benchmark data.

use vstd::prelude::*;
use frame_benchmarking::BenchmarkBatch;

use crate::data::batch_bounded;
use crate::data::batch_data_spec;
use crate::data::batch_error;
use crate::data::get_benchmark_data;
use crate::data::BenchmarkData;
use crate::data::BenchmarkDataView;
use crate::data::WriteError;
use crate::fits::decoded_utf8;
use crate::fits::utf8_string;

verus! {

/// Relies on `str` equality: two string slices are equal exactly when their
/// character sequences are.
#[verifier::external_body]
fn str_eq(a: &str, b: &str) -> (r: bool)
    ensures
        r == (a@ == b@),
{
    a == b
}

/// The benchmarks of one pallet, keyed by benchmark name; a later entry
/// with the same name supersedes an earlier one.
#[derive(Debug)]
pub struct BenchmarkMap {
    pub entries: Vec<(String, BenchmarkData)>,
}

/// The mapping that a list of name/data entries spells, later entries
/// winning.
pub open spec fn bench_entries_view(s: Seq<(String, BenchmarkData)>) -> Map<
    Seq<char>,
    BenchmarkDataView,
>
    decreases s.len(),
{
    if s.len() == 0 {
        Map::empty()
    } else {
        bench_entries_view(s.drop_last()).insert(s.last().0@, s.last().1@)
    }
}

impl View for BenchmarkMap {
    type V = Map<Seq<char>, BenchmarkDataView>;

    open spec fn view(&self) -> Map<Seq<char>, BenchmarkDataView> {
        bench_entries_view(self.entries@)
    }
}

/// An entry whose key no later entry repeats gives the map's value at
/// that key.
proof fn lemma_bench_last_match(s: Seq<(String, BenchmarkData)>, k: Seq<char>, j: int)
    requires
        0 <= j < s.len(),
        s[j].0@ == k,
        forall|l: int| j < l < s.len() ==> (#[trigger] s[l]).0@ != k,
    ensures
        bench_entries_view(s).contains_key(k),
        bench_entries_view(s)[k] == s[j].1@,
    decreases s.len(),
{
    if j == s.len() - 1 {
    } else {
        lemma_bench_last_match(s.drop_last(), k, j);
    }
}

/// A key that no entry carries is not in the map.
proof fn lemma_bench_no_match(s: Seq<(String, BenchmarkData)>, k: Seq<char>)
    requires
        forall|l: int| 0 <= l < s.len() ==> (#[trigger] s[l]).0@ != k,
    ensures
        !bench_entries_view(s).contains_key(k),
    decreases s.len(),
{
    if s.len() > 0 {
        lemma_bench_no_match(s.drop_last(), k);
    }
}

impl BenchmarkMap {
    /// Look a benchmark up by name.
    pub fn get(&self, name: &str) -> (r: Option<&BenchmarkData>)
        ensures
            match r {
                Some(d) => self@.contains_key(name@) && d@ == self@[name@],
                None => !self@.contains_key(name@),
            },
    {
        let mut i: usize = self.entries.len();
        while i > 0
            invariant
                i <= self.entries@.len(),
                forall|l: int|
                    i <= l < self.entries@.len() ==> (#[trigger] self.entries@[l]).0@ != name@,
            decreases i,
        {
            i = i - 1;
            if str_eq(self.entries[i].0.as_str(), name) {
                proof {
                    lemma_bench_last_match(self.entries@, name@, i as int);
                }
                return Some(&self.entries[i].1);
            }
        }
        proof {
            lemma_bench_no_match(self.entries@, name@);
        }
        None
    }
}

/// All grouped results, keyed by pallet; a later entry with the same
/// pallet supersedes an earlier one.
#[derive(Debug)]
pub struct PalletMap {
    pub entries: Vec<(String, BenchmarkMap)>,
}

/// The mapping that a list of pallet entries spells, later entries winning.
pub open spec fn pallet_entries_view(s: Seq<(String, BenchmarkMap)>) -> Map<
    Seq<char>,
    Map<Seq<char>, BenchmarkDataView>,
>
    decreases s.len(),
{
    if s.len() == 0 {
        Map::empty()
    } else {
        pallet_entries_view(s.drop_last()).insert(s.last().0@, s.last().1@)
    }
}

impl View for PalletMap {
    type V = Map<Seq<char>, Map<Seq<char>, BenchmarkDataView>>;

    open spec fn view(&self) -> Map<Seq<char>, Map<Seq<char>, BenchmarkDataView>> {
        pallet_entries_view(self.entries@)
    }
}

/// An entry whose key no later entry repeats gives the map's value at
/// that key.
proof fn lemma_pallet_last_match(s: Seq<(String, BenchmarkMap)>, k: Seq<char>, j: int)
    requires
        0 <= j < s.len(),
        s[j].0@ == k,
        forall|l: int| j < l < s.len() ==> (#[trigger] s[l]).0@ != k,
    ensures
        pallet_entries_view(s).contains_key(k),
        pallet_entries_view(s)[k] == s[j].1@,
    decreases s.len(),
{
    if j == s.len() - 1 {
    } else {
        lemma_pallet_last_match(s.drop_last(), k, j);
    }
}

/// A key that no entry carries is not in the map.
proof fn lemma_pallet_no_match(s: Seq<(String, BenchmarkMap)>, k: Seq<char>)
    requires
        forall|l: int| 0 <= l < s.len() ==> (#[trigger] s[l]).0@ != k,
    ensures
        !pallet_entries_view(s).contains_key(k),
    decreases s.len(),
{
    if s.len() > 0 {
        lemma_pallet_no_match(s.drop_last(), k);
    }
}

impl PalletMap {
    /// Look a pallet's benchmarks up by pallet name.
    pub fn get(&self, pallet: &str) -> (r: Option<&BenchmarkMap>)
        ensures
            match r {
                Some(m) => self@.contains_key(pallet@) && m@ == self@[pallet@],
                None => !self@.contains_key(pallet@),
            },
    {
        let mut i: usize = self.entries.len();
        while i > 0
            invariant
                i <= self.entries@.len(),
                forall|l: int|
                    i <= l < self.entries@.len() ==> (#[trigger] self.entries@[l]).0@ != pallet@,
            decreases i,
        {
            i = i - 1;
            if str_eq(self.entries[i].0.as_str(), pallet) {
                proof {
                    lemma_pallet_last_match(self.entries@, pallet@, i as int);
                }
                return Some(&self.entries[i].1);
            }
        }
        proof {
            lemma_pallet_no_match(self.entries@, pallet@);
        }
        None
    }

    /// How many pallets the map holds.
    pub fn len(&self) -> (n: usize)
        ensures
            n == self.entries@.len(),
    {
        self.entries.len()
    }
}

/// A batch is kept when it has results at all.
pub open spec fn is_kept(b: BenchmarkBatch) -> bool {
    b.results@.len() > 0
}

/// Batches of the same pallet stand next to each other among the kept
/// batches: no kept batch of another pallet sits between two kept batches
/// of one pallet.
pub open spec fn pallets_contiguous(s: Seq<BenchmarkBatch>) -> bool {
    forall|i: int, j: int, k: int|
        #![trigger s[i].pallet, s[j].pallet, s[k].pallet]
        0 <= i < j < k < s.len() && is_kept(s[i]) && is_kept(s[j]) && is_kept(s[k])
            && s[i].pallet@ == s[k].pallet@ ==> s[j].pallet@ == s[i].pallet@
}

/// Every batch stays within the bounds under which the regression routine
/// is called.
pub open spec fn batches_bounded(s: Seq<BenchmarkBatch>) -> bool {
    forall|i: int| 0 <= i < s.len() ==> batch_bounded(#[trigger] s[i])
}

/// The first error that the batches from position `i` on run into: an
/// undecodable pallet name, or the error of the batch itself. Batches
/// without results are passed over.
pub open spec fn map_error_from(s: Seq<BenchmarkBatch>, i: int) -> Option<WriteError>
    decreases s.len() - i,
{
    if i < 0 || i >= s.len() {
        None
    } else if !is_kept(s[i]) {
        map_error_from(s, i + 1)
    } else if decoded_utf8(s[i].pallet@) is None {
        Some(WriteError::InvalidName)
    } else {
        match batch_error(s[i]) {
            Some(e) => Some(e),
            None => map_error_from(s, i + 1),
        }
    }
}

/// The first error that any batch runs into.
pub open spec fn map_error(s: Seq<BenchmarkBatch>) -> Option<WriteError> {
    map_error_from(s, 0)
}

/// The two-level mapping that a sequence of batches spells: each kept
/// batch files its benchmark data under its pallet and benchmark name,
/// a later batch with the same pair winning.
pub open spec fn grouped(s: Seq<BenchmarkBatch>) -> Map<
    Seq<char>,
    Map<Seq<char>, BenchmarkDataView>,
>
    decreases s.len(),
{
    if s.len() == 0 {
        Map::empty()
    } else {
        let rest = grouped(s.drop_last());
        let b = s.last();
        if !is_kept(b) {
            rest
        } else {
            let p = decoded_utf8(b.pallet@).unwrap();
            let n = decoded_utf8(b.benchmark@).unwrap();
            let inner = if rest.contains_key(p) {
                rest[p]
            } else {
                Map::empty()
            };
            rest.insert(p, inner.insert(n, batch_data_spec(b)))
        }
    }
}

/// Group a list of benchmark batches by pallet into a two-level mapping
/// from pallet name to benchmark name to fitted benchmark data. Batches
/// without results are passed over; batches of the same pallet are
/// expected to stand next to each other.
pub fn map_results(batches: &Vec<BenchmarkBatch>) -> (r: Result<PalletMap, WriteError>)
    requires
        pallets_contiguous(batches@),
        batches_bounded(batches@),
    ensures
        match r {
            Ok(m) => batches@.len() > 0 && map_error(batches@) is None && m@ == grouped(batches@),
            Err(e) => if batches@.len() == 0 {
                e == WriteError::EmptyBatches
            } else {
                map_error(batches@) == Some(e)
            },
        },
{
    if batches.len() == 0 {
        return Err(WriteError::EmptyBatches);
    }
    let mut out = PalletMap { entries: Vec::new() };
    let mut i: usize = 0;
    while i < batches.len()
        invariant
            i <= batches@.len(),
            pallets_contiguous(batches@),
            batches_bounded(batches@),
            map_error(batches@) == map_error_from(batches@, i as int),
            out@ == grouped(batches@.take(i as int)),
            forall|e: int|
                0 <= e < out.entries@.len() ==> exists|j: int|
                    0 <= j < i && is_kept(batches@[j]) && decoded_utf8(batches@[j].pallet@)
                        == Some((#[trigger] out.entries@[e]).0@),
            out.entries@.len() > 0 ==> exists|j: int|
                0 <= j < i && is_kept(batches@[j]) && decoded_utf8(batches@[j].pallet@) == Some(
                    out.entries@.last().0@,
                ) && (forall|l: int| j < l < i ==> !is_kept(#[trigger] batches@[l])),
        decreases batches@.len() - i,
    {
        let ghost prefix = batches@.take(i as int);
        let ghost prefix1 = batches@.take(i as int + 1);
        proof {
            assert(prefix1.drop_last() =~= prefix);
            assert(prefix1.last() == batches@[i as int]);
        }
        let batch = &batches[i];
        if batch.results.len() > 0 {
            let pallet = match utf8_string(&batch.pallet) {
                Some(s) => s,
                None => { return Err(WriteError::InvalidName) },
            };
            let data = match get_benchmark_data(batch) {
                Ok(d) => d,
                Err(e) => { return Err(e) },
            };
            let name = data.name.clone();
            let ghost p = decoded_utf8(batches@[i as int].pallet@).unwrap();
            let ghost n = decoded_utf8(batches@[i as int].benchmark@).unwrap();
            proof {
                assert(p == pallet@);
                assert(n == name@);
            }
            let elen = out.entries.len();
            let is_same = if elen > 0 {
                str_eq(out.entries[elen - 1].0.as_str(), pallet.as_str())
            } else {
                false
            };
            if is_same {
                let ghost old_entries = out.entries@;
                let popped = out.entries.pop();
                let kv = popped.unwrap();
                let k = kv.0;
                let mut bm = kv.1;
                let ghost old_bench = bm.entries@;
                bm.entries.push((name, data));
                proof {
                    assert(bm.entries@.drop_last() =~= old_bench);
                    assert(bm@ == bench_entries_view(old_bench).insert(n, data@));
                }
                out.entries.push((k, bm));
                proof {
                    assert(out.entries@.drop_last() =~= old_entries.drop_last());
                    let restm = grouped(prefix);
                    assert(restm == pallet_entries_view(old_entries));
                    assert(old_entries.last().0@ == p);
                    assert(restm.contains_key(p));
                    assert(restm[p] == bench_entries_view(old_bench));
                    assert(out@ == pallet_entries_view(old_entries.drop_last()).insert(
                        p,
                        restm[p].insert(n, data@),
                    ));
                    assert(out@ =~= restm.insert(p, restm[p].insert(n, data@)));
                    assert(out@ == grouped(prefix1));
                }
            } else {
                let ghost old_entries = out.entries@;
                let mut bm = BenchmarkMap { entries: Vec::new() };
                bm.entries.push((name, data));
                proof {
                    assert(bm.entries@.len() == 1);
                    assert(bm.entries@.drop_last() =~= Seq::<(String, BenchmarkData)>::empty());
                    assert(bench_entries_view(bm.entries@.drop_last()) == Map::<
                        Seq<char>,
                        BenchmarkDataView,
                    >::empty());
                    assert(bm.entries@.last().0@ == n);
                    assert(bm.entries@.last().1@ == data@);
                    assert(bm@ =~= Map::<Seq<char>, BenchmarkDataView>::empty().insert(n, data@));
                }
                out.entries.push((pallet, bm));
                proof {
                    let restm = grouped(prefix);
                    assert(restm == pallet_entries_view(old_entries));
                    // The new pallet cannot already stand in the map: a kept
                    // batch of the same pallet before the last kept batch
                    // would break contiguity.
                    assert(!restm.contains_key(p)) by {
                        if restm.contains_key(p) {
                            assert(exists|e: int|
                                0 <= e < old_entries.len() && old_entries[e].0@ == p) by {
                                if forall|l: int|
                                    0 <= l < old_entries.len() ==> (#[trigger] old_entries[l]).0@
                                        != p {
                                    lemma_pallet_no_match(old_entries, p);
                                }
                            }
                            let e = choose|e: int|
                                0 <= e < old_entries.len() && old_entries[e].0@ == p;
                            let j = choose|j: int|
                                0 <= j < i && is_kept(batches@[j]) && decoded_utf8(
                                    batches@[j].pallet@,
                                ) == Some(old_entries[e].0@);
                            assert(batches@[j].pallet@ == batches@[i as int].pallet@);
                            let jl = choose|jl: int|
                                0 <= jl < i && is_kept(batches@[jl]) && decoded_utf8(
                                    batches@[jl].pallet@,
                                ) == Some(old_entries.last().0@) && (forall|l: int|
                                    jl < l < i ==> !is_kept(#[trigger] batches@[l]));
                            if j == jl {
                                assert(old_entries.last().0@ == p);
                            } else {
                                assert(j < jl);
                                assert(batches@[jl].pallet@ == batches@[j].pallet@);
                                assert(old_entries.last().0@ == p);
                            }
                        }
                    }
                    assert(out.entries@.drop_last() =~= old_entries);
                    assert(out@ == pallet_entries_view(old_entries).insert(p, bm@));
                    assert(out@ == grouped(prefix1));
                }
            }
        } else {
            proof {
                assert(grouped(prefix1) == grouped(prefix));
            }
        }
        i += 1;
    }
    proof {
        assert(batches@.take(batches@.len() as int) =~= batches@);
    }
    Ok(out)
}

} // verus!
