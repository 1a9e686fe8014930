use metri_engine::stream_writer::{firehose_chunks, SpyStreamWriter, StubStreamWriter};

#[test]
fn stub_accepts_and_hands_out_ids() {
    let stub = StubStreamWriter::new();
    let id = stub.put_record("s", "k", b"x".to_vec()).unwrap();
    assert!(id.starts_with("stub-record-"));
    assert_eq!(id.len(), "stub-record-".len() + 36);
    let ids = stub
        .put_records("s", vec![("a".into(), vec![1]), ("b".into(), vec![2])])
        .unwrap();
    assert_eq!(ids.len(), 2);
    assert_ne!(ids[0], ids[1]);
}

#[test]
fn spy_keeps_records_and_appends_newline_to_batches() {
    let mut spy = SpyStreamWriter::new();
    assert_eq!(spy.batch_calls(), 0);
    spy.put_record("audit", "k1", b"{\"a\":1}".to_vec()).unwrap();
    let ids = spy
        .put_records("audit", vec![("k2".into(), b"{}".to_vec()), ("k3".into(), b"[]".to_vec())])
        .unwrap();
    assert_eq!(ids.len(), 2);
    assert!(ids.iter().all(|i| i.starts_with("spy-record-")));
    assert_eq!(spy.batch_calls(), 1);
    let kept = spy.captured();
    assert_eq!(kept.len(), 3);
    assert_eq!(kept[0].data, b"{\"a\":1}".to_vec());
    assert_eq!(kept[1].partition_key, "k2");
    assert_eq!(kept[1].data, b"{}\n".to_vec());
    assert_eq!(kept[2].data, b"[]\n".to_vec());
    assert_eq!(kept[2].stream_name, "audit");
    let drained = spy.drain();
    assert_eq!(drained.len(), 3);
    assert!(spy.captured().is_empty());
    assert_eq!(spy.batch_calls(), 1);
}

#[test]
fn firehose_batches_hold_at_most_five_hundred_lines() {
    let batch: Vec<(String, Vec<u8>)> = (0..501).map(|i| (format!("k{i}"), vec![(i % 256) as u8])).collect();
    let chunks = firehose_chunks(&batch);
    assert_eq!(chunks.len(), 2);
    assert_eq!(chunks[0].len(), 500);
    assert_eq!(chunks[1].len(), 1);
    assert_eq!(chunks[0][3], vec![3u8, b'\n']);
    assert_eq!(chunks[1][0], vec![(500 % 256) as u8, b'\n']);
    assert!(firehose_chunks(&Vec::new()).is_empty());
}
