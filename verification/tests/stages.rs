use local_memory::engine::matryoshka::needs_scaling;
use local_memory::engine::matryoshka::slice_prefix;
use local_memory::engine::probe::gather;
use local_memory::engine::probe::Probe;
use local_memory::engine::search_stage1::hamming_scan;
use local_memory::engine::search_stage1::BitRow;
use local_memory::engine::search_stage1::ScanError;
use local_memory::engine::search_stage2::matryoshka_refinement;
use local_memory::engine::search_stage2::refinement_dim;
use local_memory::engine::search_stage3::full_rerank;
use serde_json::Value;
use simsimd::SpatialSimilarity;
use uuid::Uuid;

fn patterns(vector: &[f32]) -> Vec<u32> {
    vector.iter().map(|x| x.to_bits()).collect()
}

fn numbers(patterns: &[u32]) -> Vec<f32> {
    patterns.iter().map(|b| f32::from_bits(*b)).collect()
}

fn slice_vector(vec: &[f32], target_dim: usize) -> Option<Vec<f32>> {
    let prefix = numbers(&slice_prefix(&patterns(vec), target_dim).ok()?);
    let norm: f32 = prefix.iter().map(|&x| x * x).sum::<f32>().sqrt();
    if needs_scaling(norm.to_bits()) {
        Some(prefix.iter().map(|&x| x / norm).collect())
    } else {
        Some(prefix)
    }
}

fn row(id: Uuid, bits: Vec<u8>) -> BitRow {
    BitRow { key: id.as_bytes().to_vec(), bits }
}

fn text_metadata(text: &str) -> Value {
    let mut value: Value = serde_json::from_str("{}").unwrap();
    value["text"] = Value::String(text.to_string());
    value
}

fn short_distance(query: &[f32], vector: &[f32], dim: usize) -> Probe<u32> {
    let sliced_query = slice_vector(query, dim).unwrap();
    match slice_vector(vector, dim) {
        None => Probe::Unmeasurable,
        Some(sliced) => match SpatialSimilarity::cos(&sliced_query, &sliced) {
            None => Probe::Unmeasurable,
            Some(distance) => Probe::Found((distance as f32).to_bits()),
        },
    }
}

fn full_score(query: &[f32], vector: &[f32], metadata: &Value) -> Probe<(u32, Value)> {
    match SpatialSimilarity::cos(query, vector) {
        None => Probe::Unmeasurable,
        Some(distance) => Probe::Found(((1.0 - distance as f32).to_bits(), metadata.clone())),
    }
}

#[test]
fn test_hamming_scan_basic() {
    let id1 = Uuid::new_v4();
    let id2 = Uuid::new_v4();
    let rows = vec![row(id1, vec![0b11110000]), row(id2, vec![0b00001111])];

    let query = vec![0b11110000];
    let results = hamming_scan(&rows, &query, 10).unwrap();

    assert_eq!(results.len(), 2);
    assert_eq!(results[0].id, id1);
    assert_eq!(results[0].distance, 0);
    assert_eq!(results[1].id, id2);
    assert!(results[1].distance > 0);
}

#[test]
fn test_hamming_scan_benchmark() {
    let vector_dim = 1024;
    let num_vectors = 1000;
    let bit_vector_len = vector_dim / 8;

    let mut rows = Vec::new();
    for i in 0..num_vectors {
        let id = Uuid::new_v4();
        let bit_vector: Vec<u8> = (0..bit_vector_len).map(|j| ((i + j) % 256) as u8).collect();
        rows.push(row(id, bit_vector));
    }

    let query: Vec<u8> = (0..bit_vector_len).map(|j| (j % 256) as u8).collect();

    let start = std::time::Instant::now();
    let results = hamming_scan(&rows, &query, 10).unwrap();
    let duration = start.elapsed();

    println!("Scanned {} vectors in {:?}", num_vectors, duration);
    assert_eq!(results.len(), 10);
}

#[test]
fn hamming_scan_orders_by_distance_and_then_by_row() {
    let ids: Vec<Uuid> = (0..6).map(|_| Uuid::new_v4()).collect();
    let rows = vec![
        row(ids[0], vec![0b0000_0111]),
        row(ids[1], vec![0b0000_0001]),
        row(ids[2], vec![0b1110_0000]),
        row(ids[3], vec![0b0000_0000]),
        row(ids[4], vec![0b1000_0000]),
        row(ids[5], vec![0b1111_1111]),
    ];
    let results = hamming_scan(&rows, &[0b0000_0000], 10).unwrap();
    let order: Vec<Uuid> = results.iter().map(|r| r.id).collect();
    let distances: Vec<u64> = results.iter().map(|r| r.distance).collect();
    assert_eq!(order, vec![ids[3], ids[1], ids[4], ids[0], ids[2], ids[5]]);
    assert_eq!(distances, vec![0, 1, 1, 3, 3, 8]);

    let cut = hamming_scan(&rows, &[0b0000_0000], 4).unwrap();
    let order: Vec<Uuid> = cut.iter().map(|r| r.id).collect();
    assert_eq!(order, vec![ids[3], ids[1], ids[4], ids[0]]);
}

#[test]
fn hamming_scan_passes_over_rows_of_another_length() {
    let ids: Vec<Uuid> = (0..4).map(|_| Uuid::new_v4()).collect();
    let rows = vec![
        row(ids[0], vec![0xFF, 0xFF]),
        row(ids[1], vec![0xFF]),
        row(ids[2], vec![]),
        row(ids[3], vec![0x0F, 0x00]),
    ];
    let results = hamming_scan(&rows, &[0x00, 0x00], 10).unwrap();
    let found: Vec<(Uuid, u64)> = results.iter().map(|r| (r.id, r.distance)).collect();
    assert_eq!(found, vec![(ids[3], 4), (ids[0], 16)]);
}

#[test]
fn hamming_scan_of_nothing_finds_nothing() {
    assert_eq!(hamming_scan(&vec![], &[0xA5], 10).unwrap().len(), 0);
    let rows = vec![row(Uuid::new_v4(), vec![0xA5])];
    assert_eq!(hamming_scan(&rows, &[0xA5], 0).unwrap().len(), 0);
}

#[test]
fn hamming_scan_fails_on_a_key_that_is_no_identifier() {
    let rows = vec![
        row(Uuid::new_v4(), vec![0x00]),
        BitRow { key: vec![1, 2, 3], bits: vec![0x00] },
        BitRow { key: vec![0; 17], bits: vec![0x00] },
    ];
    assert_eq!(
        hamming_scan(&rows, &[0x00], 10).err(),
        Some(ScanError::InvalidKey { row: 1, len: 3 })
    );
    let rows = vec![BitRow { key: vec![], bits: vec![0x00, 0x01] }];
    assert_eq!(
        hamming_scan(&rows, &[0x00], 10).err(),
        Some(ScanError::InvalidKey { row: 0, len: 0 })
    );
}

#[test]
fn hamming_scan_reads_the_identifier_from_the_key() {
    let key: Vec<u8> = (1..=16).collect();
    let rows = vec![BitRow { key: key.clone(), bits: vec![0x01] }];
    let results = hamming_scan(&rows, &[0x00], 1).unwrap();
    assert_eq!(results[0].id.as_bytes().to_vec(), key);
    assert_eq!(results[0].id, Uuid::from_u128(0x0102_0304_0506_0708_090A_0B0C_0D0E_0F10));
    assert_eq!(results[0].distance, 1);
}

#[test]
fn test_matryoshka_refinement() {
    let mut v1 = vec![0.0; 768];
    v1[0] = 1.0;
    let id1 = Uuid::new_v4();

    let mut v2 = vec![0.0; 768];
    v2[1] = 1.0;
    let id2 = Uuid::new_v4();

    let mut query = vec![0.0; 768];
    query[0] = 1.0;
    query[1] = 0.1;

    let target_dim = refinement_dim(768);
    assert_eq!(target_dim, 256);
    let candidates = vec![
        (id1, short_distance(&query, &v1, target_dim)),
        (id2, short_distance(&query, &v2, target_dim)),
    ];
    let results = matryoshka_refinement(candidates, 2).unwrap();

    assert_eq!(results.len(), 2);
    assert_eq!(results[0].0, id1);
    assert_eq!(results[1].0, id2);
    assert!(1.0 - f32::from_bits(results[0].1) > 1.0 - f32::from_bits(results[1].1));
}

#[test]
fn matryoshka_refinement_orders_by_ascending_distance() {
    let ids: Vec<Uuid> = (0..5).map(|_| Uuid::new_v4()).collect();
    let distances = [0.5f32, 0.0, 1.5, 0.25, 0.5];
    let probes: Vec<(Uuid, Probe<u32>)> =
        ids.iter().zip(distances.iter()).map(|(id, d)| (*id, Probe::Found(d.to_bits()))).collect();
    let refined = matryoshka_refinement(probes.clone(), 10).unwrap();
    let order: Vec<Uuid> = refined.iter().map(|r| r.0).collect();
    assert_eq!(order, vec![ids[1], ids[3], ids[0], ids[4], ids[2]]);
    let found: Vec<f32> = refined.iter().map(|r| f32::from_bits(r.1)).collect();
    assert_eq!(found, vec![0.0, 0.25, 0.5, 0.5, 1.5]);

    let cut = matryoshka_refinement(probes, 3).unwrap();
    let order: Vec<Uuid> = cut.iter().map(|r| r.0).collect();
    assert_eq!(order, vec![ids[1], ids[3], ids[0]]);
}

#[test]
fn matryoshka_refinement_passes_over_missing_candidates() {
    let ids: Vec<Uuid> = (0..4).map(|_| Uuid::new_v4()).collect();
    let probes = vec![
        (ids[0], Probe::Found(0.75f32.to_bits())),
        (ids[1], Probe::Missing),
        (ids[2], Probe::Found(0.5f32.to_bits())),
        (ids[3], Probe::Missing),
    ];
    let refined = matryoshka_refinement(probes, 10).unwrap();
    assert_eq!(refined, vec![(ids[2], 0.5f32.to_bits()), (ids[0], 0.75f32.to_bits())]);

    let none: Vec<(Uuid, Probe<u32>)> = vec![(ids[0], Probe::Missing), (ids[1], Probe::Missing)];
    assert_eq!(matryoshka_refinement(none, 10).unwrap(), vec![]);
    assert_eq!(matryoshka_refinement(vec![], 10).unwrap(), vec![]);
}

#[test]
fn matryoshka_refinement_fails_on_the_first_unmeasurable_candidate() {
    let ids: Vec<Uuid> = (0..4).map(|_| Uuid::new_v4()).collect();
    let probes = vec![
        (ids[0], Probe::Found(0.75f32.to_bits())),
        (ids[1], Probe::Missing),
        (ids[2], Probe::Unmeasurable),
        (ids[3], Probe::Unmeasurable),
    ];
    let failure = matryoshka_refinement(probes, 10).unwrap_err();
    assert_eq!(failure.place, 2);
    assert_eq!(failure.id, ids[2]);
}

#[test]
fn matryoshka_refinement_puts_what_is_no_number_last() {
    let ids: Vec<Uuid> = (0..4).map(|_| Uuid::new_v4()).collect();
    let probes = vec![
        (ids[0], Probe::Found(f32::NAN.to_bits())),
        (ids[1], Probe::Found(2.0f32.to_bits())),
        (ids[2], Probe::Found((-0.0f32).to_bits())),
        (ids[3], Probe::Found(0.0f32.to_bits())),
    ];
    let refined = matryoshka_refinement(probes, 10).unwrap();
    let order: Vec<Uuid> = refined.iter().map(|r| r.0).collect();
    assert_eq!(order, vec![ids[2], ids[3], ids[1], ids[0]]);
}

#[test]
fn a_candidate_shorter_than_the_prefix_is_unmeasurable() {
    let query = vec![1.0f32; 9];
    assert!(matches!(short_distance(&query, &[1.0, 0.0], 3), Probe::Unmeasurable));
    assert!(matches!(short_distance(&query, &[1.0, 0.0, 0.0], 3), Probe::Found(_)));
}

#[test]
fn test_full_rerank() {
    let v1 = vec![1.0, 0.0, 0.0];
    let id1 = Uuid::new_v4();
    let meta1 = text_metadata("first");

    let v2 = vec![0.0, 1.0, 0.0];
    let id2 = Uuid::new_v4();
    let meta2 = text_metadata("second");

    let query = vec![1.0, 0.1, 0.0];
    let candidates =
        vec![(id1, full_score(&query, &v1, &meta1)), (id2, full_score(&query, &v2, &meta2))];
    let results = full_rerank(candidates, 2).unwrap();

    assert_eq!(results.len(), 2);
    assert_eq!(results[0].0, id1);
    assert_eq!(results[0].2, meta1);
    assert_eq!(results[1].0, id2);
    assert_eq!(results[1].2, meta2);
    assert!(f32::from_bits(results[0].1) > f32::from_bits(results[1].1));
}

#[test]
fn full_rerank_orders_by_descending_score() {
    let ids: Vec<Uuid> = (0..5).map(|_| Uuid::new_v4()).collect();
    let scores = [0.5f32, 1.0, -0.5, 0.75, 0.5];
    let probes: Vec<(Uuid, Probe<(u32, Value)>)> = ids
        .iter()
        .zip(scores.iter())
        .enumerate()
        .map(|(i, (id, s))| (*id, Probe::Found((s.to_bits(), text_metadata(&format!("doc {}", i))))))
        .collect();
    let reranked = full_rerank(probes.clone(), 10).unwrap();
    let order: Vec<Uuid> = reranked.iter().map(|r| r.0).collect();
    assert_eq!(order, vec![ids[1], ids[3], ids[0], ids[4], ids[2]]);
    let found: Vec<f32> = reranked.iter().map(|r| f32::from_bits(r.1)).collect();
    assert_eq!(found, vec![1.0, 0.75, 0.5, 0.5, -0.5]);
    assert_eq!(reranked[0].2["text"], "doc 1");
    assert_eq!(reranked[4].2["text"], "doc 2");

    let cut = full_rerank(probes, 2).unwrap();
    let order: Vec<Uuid> = cut.iter().map(|r| r.0).collect();
    assert_eq!(order, vec![ids[1], ids[3]]);
}

#[test]
fn full_rerank_passes_over_missing_and_fails_on_unmeasurable() {
    let ids: Vec<Uuid> = (0..3).map(|_| Uuid::new_v4()).collect();
    let probes = vec![
        (ids[0], Probe::Missing),
        (ids[1], Probe::Found((0.25f32.to_bits(), text_metadata("kept")))),
        (ids[2], Probe::Missing),
    ];
    let reranked = full_rerank(probes, 5).unwrap();
    assert_eq!(reranked.len(), 1);
    assert_eq!(reranked[0].0, ids[1]);
    assert_eq!(reranked[0].2["text"], "kept");

    let probes = vec![
        (ids[0], Probe::Unmeasurable),
        (ids[1], Probe::Found((0.25f32.to_bits(), text_metadata("kept")))),
    ];
    let failure = full_rerank(probes, 5).unwrap_err();
    assert_eq!(failure.place, 0);
    assert_eq!(failure.id, ids[0]);
}

#[test]
fn vectors_of_different_length_are_unmeasurable() {
    let metadata = text_metadata("x");
    assert!(matches!(full_score(&[1.0, 0.0], &[1.0, 0.0, 0.0], &metadata), Probe::Unmeasurable));
    assert!(matches!(full_score(&[1.0, 0.0], &[1.0, 0.0], &metadata), Probe::Found(_)));
}

#[test]
fn gather_keeps_the_found_in_order() {
    let ids: Vec<Uuid> = (0..4).map(|_| Uuid::new_v4()).collect();
    let probes = vec![
        (ids[0], Probe::Found('a')),
        (ids[1], Probe::Missing),
        (ids[2], Probe::Found('c')),
        (ids[3], Probe::Found('d')),
    ];
    assert_eq!(gather(probes).unwrap(), vec![(ids[0], 'a'), (ids[2], 'c'), (ids[3], 'd')]);
    let probes = vec![(ids[0], Probe::Found('a')), (ids[1], Probe::Unmeasurable)];
    let failure = gather(probes).unwrap_err();
    assert_eq!((failure.place, failure.id), (1, ids[1]));
}
