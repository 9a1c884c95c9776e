use vtt2csv::convert_document;
use vtt2csv::convert_timer_in_milliseconds;
use vtt2csv::decimal_string;
use vtt2csv::extract_line_infos;
use vtt2csv::parse_u64_digits;

#[test]
fn convertions() {
    assert_eq!(
        convert_timer_in_milliseconds("01:09:33.252"),
        Some(60 * 60 * 1000 + 9 * 60 * 1000 + 33 * 1000 + 252)
    );
    assert_eq!(
        convert_timer_in_milliseconds("01:09:36.547"),
        Some(60 * 60 * 1000 + 9 * 60 * 1000 + 36 * 1000 + 547)
    );
}

#[test]
fn extract_vtt_line_infos() {
    let line = "1\r\n00:00:20.672 --> 00:00:24.972\r\nEntre l’Australia et la South America,\ndans l’Océan South Pacific…";
    println!("{:?}", line);

    let (id, start, end, text) = extract_line_infos(line).unwrap();
    assert_eq!(id, "1");
    assert_eq!(start, 20672);
    assert_eq!(end, 24972);
    assert_eq!(
        text,
        "Entre l’Australia et la South America,\ndans l’Océan South Pacific…"
    );
}

#[test]
fn single_cue_round_trip() {
    let doc = "WEBVTT\r\n\r\n1\r\n00:00:20.672 --> 00:00:24.972\r\nSome text\r\n\r\n";
    let cues = convert_document(doc).unwrap();
    assert_eq!(cues.len(), 1);
    assert_eq!(cues[0].id, "1");
    assert_eq!(cues[0].start_ms, 20672);
    assert_eq!(cues[0].end_ms, 24972);
    assert_eq!(cues[0].text, "Some text");
}

#[test]
fn multiline_text_preserved_and_quoted() {
    let doc = "WEBVTT\r\n\r\n1\r\n00:00:20.672 --> 00:00:24.972\r\nline one\r\nline two\r\n\r\n";
    let cues = convert_document(doc).unwrap();
    assert_eq!(cues.len(), 1);
    assert_eq!(cues[0].text, "line one\r\nline two");

    let mut writer = csv::Writer::from_writer(Vec::new());
    writer.write_record(["id", "start", "end", "text"]).unwrap();
    for cue in &cues {
        writer
            .write_record([
                cue.id.as_str(),
                decimal_string(cue.start_ms).as_str(),
                decimal_string(cue.end_ms).as_str(),
                cue.text.as_str(),
            ])
            .unwrap();
    }
    let out = String::from_utf8(writer.into_inner().unwrap()).unwrap();
    assert_eq!(out, "id,start,end,text\n1,20672,24972,\"line one\r\nline two\"\n");
}

#[test]
fn two_cues_in_order() {
    let doc = "WEBVTT\r\n\r\n1\r\n00:00:01.000 --> 00:00:02.000\r\nfirst\r\n\r\n2\r\n00:00:03.000 --> 00:00:04.000\r\nsecond\r\n\r\n";
    let cues = convert_document(doc).unwrap();
    assert_eq!(cues.len(), 2);
    assert_eq!(cues[0].id, "1");
    assert_eq!(cues[0].text, "first");
    assert_eq!(cues[1].id, "2");
    assert_eq!(cues[1].start_ms, 3000);
    assert_eq!(cues[1].text, "second");
}

#[test]
fn trailing_blank_segment_stops_cleanly() {
    let with_trailing = "WEBVTT\r\n\r\n1\r\n00:00:01.000 --> 00:00:02.000\r\ntext\r\n\r\n";
    let cues = convert_document(with_trailing).unwrap();
    assert_eq!(cues.len(), 1);

    let without_trailing = "WEBVTT\r\n\r\n1\r\n00:00:01.000 --> 00:00:02.000\r\ntext";
    let cues = convert_document(without_trailing).unwrap();
    assert_eq!(cues.len(), 1);
    assert_eq!(cues[0].text, "text");

    let empty_body = "WEBVTT\r\n\r\n";
    let cues = convert_document(empty_body).unwrap();
    assert_eq!(cues.len(), 0);
}

#[test]
fn blocks_after_a_blank_block_are_never_reached() {
    let doc = "WEBVTT\r\n\r\n1\r\n00:00:01.000 --> 00:00:02.000\r\ntext\r\n\r\n\r\n\r\nnot a cue at all";
    let cues = convert_document(doc).unwrap();
    assert_eq!(cues.len(), 1);
}

#[test]
fn conversion_is_idempotent() {
    let doc = "WEBVTT\r\n\r\n1\r\n00:00:20.672 --> 00:00:24.972\r\nSome text\r\n\r\n2\r\n01:09:33.252 --> 01:09:36.547\r\nmore\r\n\r\n";
    let render = |cues: &Vec<vtt2csv::Cue>| -> String {
        let mut writer = csv::Writer::from_writer(Vec::new());
        writer.write_record(["id", "start", "end", "text"]).unwrap();
        for cue in cues {
            writer
                .write_record([
                    cue.id.as_str(),
                    decimal_string(cue.start_ms).as_str(),
                    decimal_string(cue.end_ms).as_str(),
                    cue.text.as_str(),
                ])
                .unwrap();
        }
        String::from_utf8(writer.into_inner().unwrap()).unwrap()
    };
    let first = render(&convert_document(doc).unwrap());
    let second = render(&convert_document(doc).unwrap());
    assert_eq!(first, second);
}

#[test]
fn timer_grammar_rejections() {
    assert_eq!(convert_timer_in_milliseconds("00:00:00"), None);
    assert_eq!(convert_timer_in_milliseconds("aa:bb:cc.dd"), None);
    assert_eq!(convert_timer_in_milliseconds("::."), None);
    assert_eq!(convert_timer_in_milliseconds("00.00:00:000"), None);
    assert_eq!(convert_timer_in_milliseconds("1:2:3.4"), Some(3600000 + 2 * 60000 + 3000 + 4));
    assert_eq!(convert_timer_in_milliseconds("00:90:00.000"), Some(90 * 60000));
    assert_eq!(convert_timer_in_milliseconds("18446744073709551615:00:00.000"), None);
    assert_eq!(convert_timer_in_milliseconds("18446744073709551616:00:00.000"), None);
}

#[test]
fn digit_runs_parse_as_u64() {
    assert_eq!(parse_u64_digits(""), None);
    assert_eq!(parse_u64_digits("007"), Some(7));
    assert_eq!(parse_u64_digits("+7"), None);
    assert_eq!(parse_u64_digits("18446744073709551615"), Some(u64::MAX));
    assert_eq!(parse_u64_digits("18446744073709551616"), None);
}

#[test]
fn decimal_rendering() {
    assert_eq!(decimal_string(0), "0");
    assert_eq!(decimal_string(7), "7");
    assert_eq!(decimal_string(20672), "20672");
    assert_eq!(decimal_string(u64::MAX), "18446744073709551615");
}
