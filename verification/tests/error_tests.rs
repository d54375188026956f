use vertex_stage0::error::{CompileError, ErrorAccumulator, ErrorCode, ErrorKind};
use vertex_stage0::span::{FileId, Span};

fn make_err(code: ErrorCode, file_id: FileId, start: u32) -> CompileError {
    CompileError::new(
        code,
        ErrorKind::Other,
        Span::new(file_id, start, start),
        "test",
    )
}

#[test]
fn accumulator_caps_at_100() {
    let file_id = FileId(0);
    let mut acc = ErrorAccumulator::new();
    for i in 0..150u32 {
        acc.push(make_err(ErrorCode::E0001(), file_id, i));
    }
    assert_eq!(acc.len(), 100);
    assert_eq!(acc.dropped(), 50);

    let result = acc.into_result(());
    match result {
        Err(v) => assert_eq!(v.len(), 100),
        Ok(()) => panic!("expected Err"),
    }
}

#[test]
fn accumulator_dedupes() {
    let file_id = FileId(0);
    let mut acc = ErrorAccumulator::new();

    for _ in 0..5 {
        acc.push(make_err(ErrorCode::E0001(), file_id, 10));
    }
    acc.push(make_err(ErrorCode::E0002(), file_id, 10));
    acc.push(make_err(ErrorCode::E0001(), file_id, 20));

    let result = acc.into_result(());
    match result {
        Err(v) => assert_eq!(v.len(), 3),
        Ok(()) => panic!("expected Err"),
    }
}
