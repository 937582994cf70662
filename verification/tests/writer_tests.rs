use spatialbench_s3::{FinishUpload, S3Writer, SendFailure, UploadError, WriteAction, PARQUET_BUFFER_SIZE};

/// What an object store would end up holding: the parts handed to the
/// multipart upload, then what finishing uploads.
struct Uploaded {
    parts: Vec<Vec<u8>>,
    starts: usize,
    total: usize,
    object: Option<Vec<u8>>,
}

fn record(action: WriteAction, parts: &mut Vec<Vec<u8>>, starts: &mut usize) {
    match action {
        WriteAction::Buffered => {}
        WriteAction::StartMultipart(ps) => {
            assert_eq!(parts.len(), 0, "the upload starts before any part is sent");
            *starts += 1;
            parts.extend(ps);
        }
        WriteAction::SendPart(p) => {
            assert!(*starts == 1, "parts are sent only to a started upload");
            parts.push(p);
        }
    }
}

fn finish(writer: S3Writer<()>, mut parts: Vec<Vec<u8>>, starts: usize) -> Uploaded {
    let plan = writer.finish();
    assert_eq!(plan.client, ());
    let object = match plan.upload {
        FinishUpload::CompleteMultipart(last) => {
            if let Some(last) = last {
                parts.push(last);
            }
            Some(parts.concat())
        }
        FinishUpload::Put(data) => {
            assert!(parts.is_empty());
            Some(data)
        }
        FinishUpload::Nothing => None,
        FinishUpload::Failed(f) => panic!("unexpected failure {:?}", f),
    };
    Uploaded { parts, starts, total: plan.total, object }
}

fn write_all(writer: &mut S3Writer<()>, data: &[u8], parts: &mut Vec<Vec<u8>>, starts: &mut usize) {
    let action = writer.write(data);
    record(action, parts, starts);
}

#[test]
fn write_small_file() {
    let mut writer = S3Writer::with_client((), "output/test.parquet");
    assert_eq!(writer.path(), "output/test.parquet");
    let (mut parts, mut starts) = (Vec::new(), 0);

    let data = b"hello world";
    write_all(&mut writer, data, &mut parts, &mut starts);

    let up = finish(writer, parts, starts);
    assert_eq!(up.total, data.len());
    assert_eq!(up.starts, 0);
    assert_eq!(up.object.unwrap().as_slice(), data);
}

#[test]
fn write_empty_file() {
    let writer = S3Writer::with_client((), "output/empty.parquet");
    let up = finish(writer, Vec::new(), 0);
    assert_eq!(up.total, 0);
    // Nothing is uploaded.
    assert!(up.object.is_none());
}

#[test]
fn write_large_file_triggers_multipart() {
    let mut writer = S3Writer::with_client((), "output/large.parquet");
    let (mut parts, mut starts) = (Vec::new(), 0);

    let chunk = vec![0xABu8; 1024 * 1024];
    let num_chunks = 34;
    for _ in 0..num_chunks {
        write_all(&mut writer, &chunk, &mut parts, &mut starts);
    }

    let up = finish(writer, parts, starts);
    assert_eq!(up.total, num_chunks * chunk.len());
    assert_eq!(up.starts, 1);
    assert_eq!(up.parts.len(), 2);
    assert_eq!(up.parts[0].len(), PARQUET_BUFFER_SIZE);
    let stored = up.object.unwrap();
    assert_eq!(stored.len(), num_chunks * chunk.len());
    assert!(stored.iter().all(|&b| b == 0xAB));
}

#[test]
fn write_multiple_small_writes() {
    let mut writer = S3Writer::with_client((), "output/multi.parquet");
    let (mut parts, mut starts) = (Vec::new(), 0);

    for i in 0u8..100 {
        write_all(&mut writer, &[i], &mut parts, &mut starts);
    }

    let up = finish(writer, parts, starts);
    assert_eq!(up.total, 100);
    let expected: Vec<u8> = (0u8..100).collect();
    assert_eq!(up.object.unwrap(), expected);
}

#[test]
fn total_bytes_tracks_writes() {
    let mut writer = S3Writer::with_client((), "output/track.parquet");
    let (mut parts, mut starts) = (Vec::new(), 0);

    assert_eq!(writer.total_bytes(), 0);

    write_all(&mut writer, &[1, 2, 3], &mut parts, &mut starts);
    assert_eq!(writer.total_bytes(), 3);

    write_all(&mut writer, &[4, 5], &mut parts, &mut starts);
    assert_eq!(writer.total_bytes(), 5);
    assert_eq!(writer.buffer_size(), 5);
}

#[test]
fn flush_does_not_upload_without_finish() {
    let mut writer = S3Writer::with_client((), "output/flush_test.csv");
    let (mut parts, mut starts) = (Vec::new(), 0);

    let data = b"col1,col2\nfoo,bar\n";
    write_all(&mut writer, data, &mut parts, &mut starts);
    writer.flush();

    // Flushing hands nothing over for upload.
    assert!(parts.is_empty(), "data should not be uploaded before finish()");
    assert_eq!(writer.total_bytes(), data.len());

    let up = finish(writer, parts, starts);
    assert_eq!(up.total, data.len());
    assert_eq!(up.object.unwrap().as_slice(), data);
}

#[test]
fn write_many_parts_triggers_streaming_multipart() {
    let mut writer = S3Writer::with_client((), "output/many_parts.parquet");
    let (mut parts, mut starts) = (Vec::new(), 0);

    let chunk = vec![0xCDu8; 1024 * 1024];
    let total_mb = 192;
    for _ in 0..total_mb {
        write_all(&mut writer, &chunk, &mut parts, &mut starts);
    }

    let up = finish(writer, parts, starts);
    assert_eq!(up.total, total_mb * 1024 * 1024);
    // One part starts the upload; the other five are streamed to it.
    assert_eq!(up.starts, 1);
    assert_eq!(up.parts.len(), 6);
    assert!(up.parts.iter().all(|p| p.len() == PARQUET_BUFFER_SIZE));
    let stored = up.object.unwrap();
    assert_eq!(stored.len(), total_mb * 1024 * 1024);
    assert!(stored.iter().all(|&b| b == 0xCD));
}

#[test]
fn write_from_spawn_blocking() {
    let writer = S3Writer::with_client((), "output/blocking.parquet");

    // Write 96 MB (3 x 32 MB parts), then finish.
    let (writer, parts, starts) = {
        let mut writer = writer;
        let (mut parts, mut starts) = (Vec::new(), 0);
        let chunk = vec![0xEFu8; 1024 * 1024];
        for _ in 0..96 {
            write_all(&mut writer, &chunk, &mut parts, &mut starts);
        }
        (writer, parts, starts)
    };

    let up = finish(writer, parts, starts);
    assert_eq!(up.total, 96 * 1024 * 1024);
    let stored = up.object.unwrap();
    assert_eq!(stored.len(), 96 * 1024 * 1024);
    assert!(stored.iter().all(|&b| b == 0xEF));
}

// ---- further cases ----

#[test]
fn part_is_cut_exactly_at_part_size() {
    let mut writer = S3Writer::with_client((), "k");
    let (mut parts, mut starts) = (Vec::new(), 0);
    let almost = vec![1u8; PARQUET_BUFFER_SIZE - 1];
    write_all(&mut writer, &almost, &mut parts, &mut starts);
    assert_eq!(starts, 0);
    write_all(&mut writer, &[2u8], &mut parts, &mut starts);
    assert_eq!(starts, 1);
    assert_eq!(parts.len(), 1);
    assert_eq!(parts[0].len(), PARQUET_BUFFER_SIZE);
    assert_eq!(parts[0][PARQUET_BUFFER_SIZE - 1], 2);
    let up = finish(writer, parts, starts);
    // The buffer was empty when finishing: no last part.
    assert_eq!(up.parts.len(), 1);
    assert_eq!(up.total, PARQUET_BUFFER_SIZE);
}

#[test]
fn one_large_write_becomes_one_large_part() {
    let mut writer = S3Writer::with_client((), "k");
    let big = vec![7u8; PARQUET_BUFFER_SIZE + 10];
    match writer.write(&big) {
        WriteAction::StartMultipart(ps) => {
            assert_eq!(ps.len(), 1);
            assert_eq!(ps[0].len(), PARQUET_BUFFER_SIZE + 10);
        }
        _ => panic!("expected the upload to start"),
    }
    match writer.write(&[1, 2, 3]) {
        WriteAction::Buffered => {}
        _ => panic!("expected buffering"),
    }
    let plan = writer.finish();
    match plan.upload {
        FinishUpload::CompleteMultipart(Some(last)) => assert_eq!(last, vec![1, 2, 3]),
        _ => panic!("expected a last part"),
    }
    assert_eq!(plan.total, PARQUET_BUFFER_SIZE + 13);
}

#[test]
fn finish_hands_back_client_and_path() {
    let writer = S3Writer::with_client(42u32, "a/b.csv");
    assert_eq!(*writer.client(), 42);
    let plan = writer.finish();
    assert_eq!(plan.client, 42);
    assert_eq!(plan.path, "a/b.csv");
}

#[test]
fn empty_writes_upload_nothing() {
    let mut writer = S3Writer::with_client((), "k");
    for _ in 0..3 {
        assert!(matches!(writer.write(&[]), WriteAction::Buffered));
    }
    let up = finish(writer, Vec::new(), 0);
    assert_eq!(up.total, 0);
    assert!(up.object.is_none());
}

#[test]
fn failed_send_writes_nothing() {
    let mut writer = S3Writer::with_client((), "k");
    let first = vec![1u8; PARQUET_BUFFER_SIZE];
    assert!(matches!(writer.write(&first), WriteAction::StartMultipart(_)));
    assert_eq!(writer.total_bytes(), PARQUET_BUFFER_SIZE);

    let second = vec![2u8; PARQUET_BUFFER_SIZE];
    assert!(matches!(writer.write(&second), WriteAction::SendPart(_)));
    assert_eq!(writer.total_bytes(), 2 * PARQUET_BUFFER_SIZE);

    // The send failed: the second write wrote nothing.
    writer.send_failed(SendFailure::UploadFailed(UploadError::Part {
        part_number: 1,
        cause: "boom".to_string(),
    }));
    assert_eq!(writer.total_bytes(), PARQUET_BUFFER_SIZE);

    // Later failures do not replace the first one, and finishing reports it.
    writer.write(&[3u8; 10]);
    assert_eq!(writer.total_bytes(), PARQUET_BUFFER_SIZE + 10);
    assert!(matches!(writer.write(&second), WriteAction::SendPart(_)));
    writer.send_failed(SendFailure::TaskTerminated);
    assert_eq!(writer.total_bytes(), PARQUET_BUFFER_SIZE + 10);

    let plan = writer.finish();
    assert_eq!(plan.total, PARQUET_BUFFER_SIZE + 10);
    // The failed send took the task's error and nothing is left to send:
    // that error is the answer.
    match plan.upload {
        FinishUpload::Failed(UploadError::Part { part_number, cause }) => {
            assert_eq!(part_number, 1);
            assert_eq!(cause, "boom");
        }
        _ => panic!("expected the task's error"),
    }
}

#[test]
fn terminated_task_leaves_finish_to_wait_for_its_result() {
    let mut writer = S3Writer::with_client((), "k");
    writer.write(&vec![1u8; PARQUET_BUFFER_SIZE]);
    assert!(matches!(writer.write(&vec![2u8; PARQUET_BUFFER_SIZE]), WriteAction::SendPart(_)));
    writer.send_failed(SendFailure::TaskTerminated);
    assert_eq!(writer.total_bytes(), PARQUET_BUFFER_SIZE);
    let plan = writer.finish();
    assert!(matches!(plan.upload, FinishUpload::CompleteMultipart(None)));
}

#[test]
fn failed_writer_with_buffered_data_still_sends_it() {
    let mut writer = S3Writer::with_client((), "k");
    writer.write(&vec![1u8; PARQUET_BUFFER_SIZE]);
    writer.write(&vec![2u8; PARQUET_BUFFER_SIZE]);
    writer.send_failed(SendFailure::UploadFailed(UploadError::Start("x".to_string())));
    writer.write(&[5u8, 6]);
    let plan = writer.finish();
    assert_eq!(plan.total, PARQUET_BUFFER_SIZE + 2);
    match plan.upload {
        FinishUpload::CompleteMultipart(Some(last)) => assert_eq!(last, vec![5, 6]),
        _ => panic!("expected the last part"),
    }
}
