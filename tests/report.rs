use loudness_limiter::decimal::Decimal;
use loudness_limiter::report::{find_block, MusicLoudness, ParseError};

fn sample(input_i: &str) -> String {
    format!(
        "ffmpeg version 6.1 Copyright (c) 2000-2023\n\
         Input #0, mp3, from 'song.mp3':\n\
         [Parsed_loudnorm_0 @ 0x55d5c8a3c0c0] \n\
         {{\n\
         \t\"input_i\" : \"{}\",\n\
         \t\"input_tp\" : \"-7.96\",\n\
         \t\"input_lra\" : \"0.00\",\n\
         \t\"input_thresh\" : \"-34.17\",\n\
         \t\"output_i\" : \"-17.97\",\n\
         \t\"output_tp\" : \"-2.38\",\n\
         \t\"output_lra\" : \"0.00\",\n\
         \t\"output_thresh\" : \"-28.58\",\n\
         \t\"normalization_type\" : \"dynamic\",\n\
         \t\"target_offset\" : \"-0.03\"\n\
         }}\n\
         [out#0/null @ 0x55d5c8a41f00] video:0kB audio:23kB\n",
        input_i
    )
}

fn dec(units: i64, scale: u32) -> Decimal {
    Decimal { units, scale }
}

#[test]
fn parse_reads_every_field() {
    let rep = MusicLoudness::parse(&sample("-23.54")).unwrap();
    assert_eq!(rep.input_i, dec(-2354, 2));
    assert_eq!(rep.input_tp, dec(-796, 2));
    assert_eq!(rep.input_lra, dec(0, 2));
    assert_eq!(rep.input_thresh, dec(-3417, 2));
    assert_eq!(rep.output_i, dec(-1797, 2));
    assert_eq!(rep.output_tp, dec(-238, 2));
    assert_eq!(rep.output_lra, dec(0, 2));
    assert_eq!(rep.output_thresh, dec(-2858, 2));
    assert_eq!(rep.normalization_type, "dynamic");
    assert_eq!(rep.target_offset, dec(-3, 2));
}

#[test]
fn parse_without_block_fails() {
    let r = MusicLoudness::parse("ffmpeg: no such file\nConversion failed!\n");
    assert_eq!(r, Err(ParseError::NoStructuredBlockFound));
    assert_eq!(MusicLoudness::parse(""), Err(ParseError::NoStructuredBlockFound));
    assert_eq!(MusicLoudness::parse("{ never closed"), Err(ParseError::NoStructuredBlockFound));
}

#[test]
fn parse_missing_field_is_malformed() {
    let text = sample("-23.54").replace("\t\"input_tp\" : \"-7.96\",\n", "");
    assert!(matches!(MusicLoudness::parse(&text), Err(ParseError::MalformedBlock(_))));
}

#[test]
fn parse_non_numeric_field_is_malformed() {
    assert!(matches!(MusicLoudness::parse(&sample("-inf")), Err(ParseError::MalformedBlock(_))));
    assert!(matches!(MusicLoudness::parse(&sample("loud")), Err(ParseError::MalformedBlock(_))));
}

#[test]
fn parse_wrong_type_is_malformed() {
    let text = sample("-23.54").replace("\"input_lra\" : \"0.00\"", "\"input_lra\" : 0.0");
    assert!(matches!(MusicLoudness::parse(&text), Err(ParseError::MalformedBlock(_))));
}

#[test]
fn parse_block_that_is_not_json_is_malformed() {
    let r = MusicLoudness::parse("progress {frame=12} done");
    assert!(matches!(r, Err(ParseError::MalformedBlock(_))));
}

#[test]
fn find_block_takes_first_open_to_first_close() {
    assert_eq!(find_block("ab{c{d}e}f"), Some("{c{d}".to_string()));
    assert_eq!(find_block("}x{y}"), Some("{y}".to_string()));
    assert_eq!(find_block("{}"), Some("{}".to_string()));
    assert_eq!(find_block("no braces"), None);
    assert_eq!(find_block("close } only"), None);
    assert_eq!(find_block("é{ü}"), Some("{ü}".to_string()));
}

#[test]
fn show_loudness_lists_fields() {
    let rep = MusicLoudness::parse(&sample("-23.54")).unwrap();
    let lines = rep.show_loudness();
    assert_eq!(lines.len(), 10);
    assert_eq!(lines[0], "Input I: -23.54");
    assert_eq!(lines[2], "Input LRA: 0.00");
    assert_eq!(lines[8], "Normalization Type: dynamic");
    assert_eq!(lines[9], "Target Offset: -0.03");
}
