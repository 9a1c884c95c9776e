use vtt2csv::convert_document;
use vtt2csv::extract_line_infos;
use vtt2csv::strip_header;
use vtt2csv::CueError;
use vtt2csv::VttError;

#[test]
fn missing_header_is_rejected() {
    let r = convert_document("1\r\n00:00:00.000 --> 00:00:01.000\r\ntext\r\n\r\n");
    assert!(matches!(r, Err(VttError::Header)));

    let r = strip_header("WEBVTT\n\n1\r\n");
    assert!(matches!(r, Err(VttError::Header)));

    let r = strip_header("");
    assert!(matches!(r, Err(VttError::Header)));
}

#[test]
fn one_line_block_is_structure_error() {
    assert_eq!(extract_line_infos("42").unwrap_err(), CueError::MissingIdLine);
    assert_eq!(
        extract_line_infos("42\r\n00:00:00.000 --> 00:00:01.000").unwrap_err(),
        CueError::MissingTextLine
    );
}

#[test]
fn short_arrow_is_timing_error() {
    assert_eq!(
        extract_line_infos("1\r\n00:00:00.000 -> 00:00:01.000\r\ntext").unwrap_err(),
        CueError::MissingArrow
    );
}

#[test]
fn malformed_timestamp_is_timer_error() {
    assert_eq!(
        extract_line_infos("1\r\n00:00:00 --> 00:00:01.000\r\ntext").unwrap_err(),
        CueError::InvalidTimer
    );
    assert_eq!(
        extract_line_infos("1\r\n00:00:00.000 --> 00:00:01\r\ntext").unwrap_err(),
        CueError::InvalidTimer
    );
}

#[test]
fn document_error_carries_block_and_position() {
    let doc = "WEBVTT\r\n\r\n1\r\n00:00:00.000 --> 00:00:01.000\r\nok\r\n\r\nbad block";
    match convert_document(doc) {
        Err(VttError::Cue { kind, block, index }) => {
            assert_eq!(kind, CueError::MissingIdLine);
            assert_eq!(block, "bad block");
            assert_eq!(index, 1);
        },
        other => panic!("expected a cue error, got {:?}", other),
    }
}

#[test]
fn error_messages_render_the_causal_chain() {
    assert_eq!(VttError::Header.message(), "this is not a valid WEBVTT file");
    assert_eq!(CueError::MissingIdLine.message(), "invalid line id format");
    assert_eq!(
        CueError::MissingTextLine.message(),
        "invalid line start-end format: cannot split by \\r\\n"
    );
    assert_eq!(
        CueError::MissingArrow.message(),
        "invalid line start-end format: cannot split by arrow (` --> `)"
    );
    assert_eq!(CueError::InvalidTimer.message(), "invalid timer format");

    let doc = "WEBVTT\r\n\r\n1\r\n00:00:00.000 -> 00:00:01.000\r\ntext\r\n\r\n";
    let e = convert_document(doc).unwrap_err();
    assert_eq!(
        e.message(),
        "an error occurred on the line `1\r\n00:00:00.000 -> 00:00:01.000\r\ntext` around line 0: invalid line start-end format: cannot split by arrow (` --> `)"
    );
}
