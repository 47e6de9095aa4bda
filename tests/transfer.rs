use aliyun_oss::transfer::{network_path, split_chunks, ChunkSink, Progress, UPLOAD_CHUNK_SIZE};

#[test]
fn streamed_bytes_round_trip_with_progress() {
    let data: Vec<u8> = (0..40000u32).map(|i| (i % 251) as u8).collect();
    let chunks = split_chunks(&data, UPLOAD_CHUNK_SIZE);
    assert_eq!(chunks.len(), 3);
    let mut progress = Progress::new(data.len() as u64);
    let mut reports = Vec::new();
    let mut sink = ChunkSink::new();
    for c in &chunks {
        assert!(!c.is_empty() && c.len() <= UPLOAD_CHUNK_SIZE);
        reports.push(progress.advance(c.len() as u64));
        sink.write_chunk(c);
    }
    assert_eq!(sink.into_bytes(), data);
    assert_eq!(reports.last().copied(), Some((40000, 40000)));
    assert_eq!(reports[0], (16384, 40000));
}

#[test]
fn empty_body_has_no_chunks() {
    let data: Vec<u8> = Vec::new();
    assert!(split_chunks(&data, 4).is_empty());
}

#[test]
fn exact_multiple_chunking() {
    let data = vec![7u8; 12];
    let chunks = split_chunks(&data, 4);
    assert_eq!(chunks, vec![vec![7u8; 4]; 3]);
}

#[test]
fn network_paths_detected() {
    assert!(network_path("smb://server/share/file"));
    assert!(!network_path("/tmp/dir/file"));
    assert!(!network_path("C:/data"));
}
