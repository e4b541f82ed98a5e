use partdl::fetch::append_chunk;
use partdl::part::Part;
use partdl::merge::merge_segments;
use partdl::plan::plan;

fn sample_target(len: usize) -> Vec<u8> {
    (0..len).map(|i| ((i * 31 + 7) % 256) as u8).collect()
}

fn slice_segments(target: &[u8], length: usize, n: i32) -> Vec<Vec<u8>> {
    plan(length, n)
        .iter()
        .map(|p| target[p.offset..p.offset + p.size].to_vec())
        .collect()
}

#[test]
fn merge_round_trip_even() {
    let target = sample_target(1000);
    let segments = slice_segments(&target, 1000, 4);
    assert_eq!(merge_segments(&segments), target);
}

#[test]
fn merge_round_trip_remainder() {
    let target = sample_target(1001);
    let segments = slice_segments(&target, 1001, 4);
    assert_eq!(merge_segments(&segments), target);
}

#[test]
fn merge_round_trip_all_counts() {
    let target = sample_target(337);
    for n in 1..=8i32 {
        let segments = slice_segments(&target, 337, n);
        assert_eq!(merge_segments(&segments), target);
    }
}

#[test]
fn merge_out_of_index_order_corrupts() {
    let target = sample_target(100);
    let mut segments = slice_segments(&target, 100, 4);
    segments.swap(0, 3);
    assert_ne!(merge_segments(&segments), target);
}

#[test]
fn merge_keeps_whatever_a_failed_segment_left() {
    // A segment that failed outright contributes its zero bytes; the merge
    // still runs and the output is short.
    let segments = vec![vec![1u8, 2, 3], vec![], vec![7u8, 8]];
    assert_eq!(merge_segments(&segments), vec![1, 2, 3, 7, 8]);
}

#[test]
fn append_chunk_grows_segment_in_order() {
    let mut segment = vec![10u8, 11];
    let added = append_chunk(&mut segment, &vec![12u8, 13, 14]);
    assert_eq!(added, 3);
    assert_eq!(segment, vec![10, 11, 12, 13, 14]);
    let added = append_chunk(&mut segment, &vec![]);
    assert_eq!(added, 0);
    assert_eq!(segment, vec![10, 11, 12, 13, 14]);
}

#[test]
fn resumed_fetch_completes_segment() {
    let target = sample_target(1000);
    let mut p = Part::new(2, 250, 250);
    // 100 bytes of this part are already on disk.
    let mut segment: Vec<u8> = target[250..350].to_vec();
    p.set_offset(segment.len());
    assert_eq!((p.offset, p.size), (350, 150));
    // The ranged transfer now delivers the rest in two chunks.
    append_chunk(&mut segment, &target[350..420].to_vec());
    append_chunk(&mut segment, &target[420..500].to_vec());
    assert_eq!(segment, target[250..500].to_vec());
}
