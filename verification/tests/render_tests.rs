use vertex_stage0::error::render::render;
use vertex_stage0::error::{CompileError, ErrorCode, ErrorKind, Label, Suggestion};
use vertex_stage0::span::{SourceMap, Span};

#[test]
fn renders_e0308_format() {
    let mut map = SourceMap::new();
    let file = map.add_file("src/main.vx", "    x + \"hello\"");

    let span = Span::new(file, 4, 15);

    let err = CompileError::new(ErrorCode::E0308(), ErrorKind::Type, span, "type mismatch")
        .with_note("cannot add integer and string")
        .with_suggestion(Suggestion {
            message: "convert the string to a number with: x + \"hello\".parse()?".into(),
            replacement: None,
            span,
        });

    let rendered = render(&err, &map);

    assert!(
        rendered.contains("error[E0308]: type mismatch"),
        "header missing: {rendered}"
    );
    assert!(
        rendered.contains("--> src/main.vx:1:"),
        "location missing: {rendered}"
    );
    assert!(
        rendered.contains("    x + \"hello\""),
        "source line missing: {rendered}"
    );
    assert!(rendered.contains("^"), "caret missing: {rendered}");
    assert!(
        rendered.contains("= note: cannot add integer and string"),
        "note missing: {rendered}"
    );
    assert!(
        rendered.contains("= help: convert the string to a number"),
        "help missing: {rendered}"
    );
}

#[test]
fn multi_label_layout() {
    let mut map = SourceMap::new();
    let main = map.add_file("src/main.vx", "alpha = 1\nbeta = 2\ngamma = 3\n");
    let lib = map.add_file("src/lib.vx", "delta = 4\n");

    let primary_span = Span::new(main, 0, 5);
    let secondary_a = Span::new(main, 10, 14);
    let secondary_b = Span::new(lib, 0, 5);

    let err = CompileError::new(
        ErrorCode::E0502(),
        ErrorKind::BorrowCheck,
        primary_span,
        "conflicting definitions",
    )
    .with_label(Label {
        span: primary_span,
        message: "first defined here".into(),
        primary: true,
    })
    .with_secondary_label(secondary_a, "later redefined here")
    .with_secondary_label(secondary_b, "and here");

    let rendered = render(&err, &map);

    assert!(
        rendered.contains("alpha = 1"),
        "primary snippet missing: {rendered}"
    );
    assert!(rendered.contains("^"), "caret missing: {rendered}");
    assert!(
        rendered.contains("first defined here"),
        "primary label message missing: {rendered}"
    );

    assert!(rendered.contains(":::"), "::: prefix missing: {rendered}");
    assert!(
        rendered.contains("src/main.vx:2:1: later redefined here"),
        "secondary a reference missing: {rendered}"
    );
    assert!(
        rendered.contains("src/lib.vx:1:1: and here"),
        "secondary b reference missing: {rendered}"
    );

    assert!(
        !rendered.contains("beta = 2"),
        "secondary snippet a leaked into render: {rendered}"
    );
    assert!(
        !rendered.contains("delta = 4"),
        "secondary snippet b leaked into render: {rendered}"
    );
}
