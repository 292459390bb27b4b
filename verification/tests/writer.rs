use frame_benchmarking::{BenchmarkBatch, BenchmarkParameter, BenchmarkResult};
use weight_writer::{map_results, Component, ComponentSlope, WriteError};

fn test_data(name: Vec<u8>, param: BenchmarkParameter, base: u32, slope: u32) -> BenchmarkBatch {
    let mut results = Vec::new();
    for i in 0..5 {
        results.push(BenchmarkResult {
            components: vec![(param, i), (BenchmarkParameter::z, 0)],
            extrinsic_time: (base + slope * i).into(),
            storage_root_time: (base + slope * i).into(),
            reads: base + slope * i,
            repeat_reads: 0,
            writes: base + slope * i,
            repeat_writes: 0,
            proof_size: 0,
            keys: Vec::new(),
        })
    }

    BenchmarkBatch {
        pallet: [name.clone(), b"_pallet".to_vec()].concat(),
        instance: b"instance".to_vec(),
        benchmark: [name, b"_name".to_vec()].concat(),
        results,
    }
}

#[test]
fn map_results_works() {
    let mapped_results = map_results(&vec![
        test_data(b"first".to_vec(), BenchmarkParameter::a, 10, 3),
        test_data(b"second".to_vec(), BenchmarkParameter::b, 3, 4),
    ])
    .unwrap();

    let first_benchmark = mapped_results
        .get("first_pallet")
        .unwrap()
        .get("first_name")
        .unwrap();

    assert_eq!(first_benchmark.name, "first_name");
    assert_eq!(
        first_benchmark.components,
        vec![
            Component { name: "a".to_string(), is_used: true },
            Component { name: "z".to_string(), is_used: false },
        ],
    );
    // Weights multiplied by 1,000
    assert_eq!(first_benchmark.base_weight, 10_000);
    assert_eq!(
        first_benchmark.component_weight,
        vec![ComponentSlope { name: "a".to_string(), slope: 3_000 }]
    );
    // DB Reads/Writes are untouched
    assert_eq!(first_benchmark.base_reads, 10);
    assert_eq!(
        first_benchmark.component_reads,
        vec![ComponentSlope { name: "a".to_string(), slope: 3 }]
    );
    assert_eq!(first_benchmark.base_writes, 10);
    assert_eq!(
        first_benchmark.component_writes,
        vec![ComponentSlope { name: "a".to_string(), slope: 3 }]
    );

    let second_benchmark = mapped_results
        .get("second_pallet")
        .unwrap()
        .get("second_name")
        .unwrap();

    assert_eq!(second_benchmark.name, "second_name");
    assert_eq!(
        second_benchmark.components,
        vec![
            Component { name: "b".to_string(), is_used: true },
            Component { name: "z".to_string(), is_used: false },
        ],
    );
    // Weights multiplied by 1,000
    assert_eq!(second_benchmark.base_weight, 3_000);
    assert_eq!(
        second_benchmark.component_weight,
        vec![ComponentSlope { name: "b".to_string(), slope: 4_000 }]
    );
    // DB Reads/Writes are untouched
    assert_eq!(second_benchmark.base_reads, 3);
    assert_eq!(
        second_benchmark.component_reads,
        vec![ComponentSlope { name: "b".to_string(), slope: 4 }]
    );
    assert_eq!(second_benchmark.base_writes, 3);
    assert_eq!(
        second_benchmark.component_writes,
        vec![ComponentSlope { name: "b".to_string(), slope: 4 }]
    );
}

#[test]
fn empty_batch_list_is_an_error() {
    let r = map_results(&Vec::new());
    assert_eq!(r.unwrap_err(), WriteError::EmptyBatches);
}

#[test]
fn batches_without_results_are_passed_over() {
    let mut batch = test_data(b"lonely".to_vec(), BenchmarkParameter::a, 1, 1);
    batch.results.clear();
    let mapped = map_results(&vec![batch]).unwrap();
    assert_eq!(mapped.len(), 0);
}

#[test]
fn invalid_pallet_name_is_an_error() {
    let mut batch = test_data(b"bad".to_vec(), BenchmarkParameter::a, 1, 1);
    batch.pallet = vec![0xff, 0xfe];
    let r = map_results(&vec![batch]);
    assert_eq!(r.unwrap_err(), WriteError::InvalidName);
}

#[test]
fn invalid_benchmark_name_is_an_error() {
    let mut batch = test_data(b"bad".to_vec(), BenchmarkParameter::a, 1, 1);
    batch.benchmark = vec![0x80];
    let r = map_results(&vec![batch]);
    assert_eq!(r.unwrap_err(), WriteError::InvalidName);
}

#[test]
fn benchmarks_of_one_pallet_share_an_entry() {
    let mut a = test_data(b"shared".to_vec(), BenchmarkParameter::a, 5, 2);
    let mut b = test_data(b"shared".to_vec(), BenchmarkParameter::b, 7, 1);
    a.benchmark = b"one".to_vec();
    b.benchmark = b"two".to_vec();
    let mapped = map_results(&vec![a, b]).unwrap();
    assert_eq!(mapped.len(), 1);
    let pallet = mapped.get("shared_pallet").unwrap();
    assert_eq!(pallet.get("one").unwrap().base_reads, 5);
    assert_eq!(pallet.get("two").unwrap().base_reads, 7);
    assert!(pallet.get("three").is_none());
    assert!(mapped.get("other_pallet").is_none());
}

#[test]
fn later_batch_with_same_name_wins() {
    let early = test_data(b"dup".to_vec(), BenchmarkParameter::a, 1, 1);
    let late = test_data(b"dup".to_vec(), BenchmarkParameter::a, 9, 1);
    let mapped = map_results(&vec![early, late]).unwrap();
    assert_eq!(mapped.len(), 1);
    let data = mapped.get("dup_pallet").unwrap().get("dup_name").unwrap();
    assert_eq!(data.base_reads, 9);
}

#[test]
fn constant_costs_have_no_used_components() {
    // A benchmark whose costs do not move with its component: every slope
    // is zero, so the component is marked unused and no slopes remain.
    let batch = test_data(b"flat".to_vec(), BenchmarkParameter::c, 4, 0);
    let mapped = map_results(&vec![batch]).unwrap();
    let data = mapped.get("flat_pallet").unwrap().get("flat_name").unwrap();
    assert_eq!(
        data.components,
        vec![
            Component { name: "c".to_string(), is_used: false },
            Component { name: "z".to_string(), is_used: false },
        ],
    );
    assert_eq!(data.base_weight, 4_000);
    assert_eq!(data.component_weight, Vec::new());
    assert_eq!(data.component_reads, Vec::new());
    assert_eq!(data.component_writes, Vec::new());
}
