use spatialbench_s3::{ErrorKind, send_failure, MultipartTask, SendFailure, TaskAction, TaskEvent, UploadError, UploadMessage};

fn ok() -> Result<(), String> {
    Ok(())
}

#[test]
fn parts_are_numbered_from_one_and_uploaded_in_order() {
    let mut task = MultipartTask::new(Vec::new());
    assert!(matches!(task.step(TaskEvent::Started(ok())), TaskAction::AwaitNext));
    for (i, byte) in [10u8, 20, 30].iter().enumerate() {
        match task.step(TaskEvent::Next(Some(UploadMessage::Part(vec![*byte; 4])))) {
            TaskAction::UploadPart { part_number, data } => {
                assert_eq!(part_number, i + 1);
                assert_eq!(data, vec![*byte; 4]);
            }
            _ => panic!("expected a part upload"),
        }
        assert!(matches!(task.step(TaskEvent::PartUploaded(ok())), TaskAction::AwaitNext));
    }
    assert_eq!(task.part_number(), 3);
    assert!(matches!(task.step(TaskEvent::Next(Some(UploadMessage::Finish))), TaskAction::Complete));
    assert!(!task.is_done());
    assert!(matches!(task.step(TaskEvent::Completed(ok())), TaskAction::Report(Ok(()))));
    assert!(task.is_done());
}

#[test]
fn closed_channel_completes_the_upload() {
    let mut task = MultipartTask::new(Vec::new());
    task.step(TaskEvent::Started(ok()));
    assert!(matches!(task.step(TaskEvent::Next(None)), TaskAction::Complete));
}

#[test]
fn failed_part_aborts_with_its_number() {
    let mut task = MultipartTask::new(Vec::new());
    task.step(TaskEvent::Started(ok()));
    task.step(TaskEvent::Next(Some(UploadMessage::Part(vec![1]))));
    task.step(TaskEvent::PartUploaded(ok()));
    task.step(TaskEvent::Next(Some(UploadMessage::Part(vec![2]))));
    match task.step(TaskEvent::PartUploaded(Err("boom".to_string()))) {
        TaskAction::Abort(UploadError::Part { part_number, cause }) => {
            assert_eq!(part_number, 2);
            assert_eq!(cause, "boom");
        }
        _ => panic!("expected an abort"),
    }
    assert!(task.is_done());
}

#[test]
fn failed_start_is_reported() {
    let mut task = MultipartTask::new(Vec::new());
    match task.step(TaskEvent::Started(Err("denied".to_string()))) {
        TaskAction::Report(Err(UploadError::Start(m))) => assert_eq!(m, "denied"),
        _ => panic!("expected a start failure"),
    }
    assert!(task.is_done());
}

#[test]
fn failed_complete_is_reported_without_abort() {
    let mut task = MultipartTask::new(Vec::new());
    task.step(TaskEvent::Started(ok()));
    task.step(TaskEvent::Next(Some(UploadMessage::Finish)));
    match task.step(TaskEvent::Completed(Err("late".to_string()))) {
        TaskAction::Report(Err(UploadError::Complete(m))) => assert_eq!(m, "late"),
        _ => panic!("expected a completion failure"),
    }
}

#[test]
fn send_failure_prefers_the_task_error() {
    let f = send_failure(Some(Err(UploadError::Complete("x".to_string()))));
    assert!(matches!(f, SendFailure::UploadFailed(UploadError::Complete(ref m)) if m == "x"));
    assert!(matches!(send_failure(Some(Ok(()))), SendFailure::TaskTerminated));
    assert!(matches!(send_failure(None), SendFailure::TaskTerminated));
}

#[test]
fn pending_parts_are_uploaded_before_messages() {
    let mut task = MultipartTask::new(vec![vec![1], vec![2]]);
    match task.step(TaskEvent::Started(ok())) {
        TaskAction::UploadPart { part_number, data } => {
            assert_eq!(part_number, 1);
            assert_eq!(data, vec![1]);
        }
        _ => panic!("expected the first pending part"),
    }
    match task.step(TaskEvent::PartUploaded(ok())) {
        TaskAction::UploadPart { part_number, data } => {
            assert_eq!(part_number, 2);
            assert_eq!(data, vec![2]);
        }
        _ => panic!("expected the second pending part"),
    }
    assert!(matches!(task.step(TaskEvent::PartUploaded(ok())), TaskAction::AwaitNext));
    match task.step(TaskEvent::Next(Some(UploadMessage::Part(vec![3])))) {
        TaskAction::UploadPart { part_number, data } => {
            assert_eq!(part_number, 3);
            assert_eq!(data, vec![3]);
        }
        _ => panic!("expected the writer's part"),
    }
}

#[test]
fn failed_pending_part_aborts_and_skips_the_rest() {
    let mut task = MultipartTask::new(vec![vec![1], vec![2]]);
    task.step(TaskEvent::Started(ok()));
    match task.step(TaskEvent::PartUploaded(Err("no".to_string()))) {
        TaskAction::Abort(UploadError::Part { part_number, .. }) => assert_eq!(part_number, 1),
        _ => panic!("expected an abort"),
    }
    assert!(task.is_done());
}

#[test]
fn step_fits_for_a_new_task() {
    let task = MultipartTask::new(vec![vec![1]]);
    assert!(task.step_fits(&TaskEvent::Started(ok())));
}

#[test]
fn upload_error_texts() {
    let part = UploadError::Part { part_number: 12, cause: "boom".to_string() };
    assert_eq!(part.to_string(), "Failed to upload part 12: boom");
    assert_eq!(part.kind(), ErrorKind::Other);
    let first = UploadError::Part { part_number: 0, cause: String::new() };
    assert_eq!(first.to_string(), "Failed to upload part 0: ");
    let big = UploadError::Part { part_number: usize::MAX, cause: "c".to_string() };
    assert_eq!(big.to_string(), format!("Failed to upload part {}: c", usize::MAX));
    assert_eq!(
        UploadError::Start("denied".to_string()).to_string(),
        "Failed to start multipart upload: denied"
    );
    assert_eq!(
        UploadError::Complete("late".to_string()).to_string(),
        "Failed to complete multipart upload: late"
    );
}

#[test]
fn send_failure_texts() {
    let f = SendFailure::UploadFailed(UploadError::Part { part_number: 3, cause: "x".to_string() });
    assert_eq!(f.to_string(), "S3 upload failed: Failed to upload part 3: x");
    assert_eq!(f.kind(), ErrorKind::Other);
    assert_eq!(
        SendFailure::TaskTerminated.to_string(),
        "Background upload task terminated unexpectedly"
    );
}
