use std::collections::HashMap;

use engine::media::decode::{
    decode_filter, frame_from_bytes, parse_frame_timestamps, target_timestamp,
};
use engine::media::error::MediaFfmpegError;
use engine::media::probe::{
    parse_i32, parse_optional_i64, parse_optional_rational, parse_optional_u16,
    parse_optional_u32, parse_stream_line, parse_stream_listing, unquote, StreamInfo, StreamKind,
};
use engine::text::{find_char, lines, parse_integer, same_text, split, split_once, trim_matches};
use engine::time::Rational;

fn parse_fault(error: MediaFfmpegError) -> (&'static str, String) {
    match error {
        MediaFfmpegError::Parse { context, value } => (context, value),
        other => panic!("expected a parse error, got {other:?}"),
    }
}

const NUMBERS: [&str; 40] = [
    "",
    "0",
    "-0",
    "+0",
    "00012",
    "+5",
    "-5",
    "--5",
    "+-5",
    "-+5",
    "+",
    "-",
    " 5",
    "5 ",
    "5a",
    "a5",
    "1_000",
    "1.0",
    "0x10",
    "٣",
    "１２",
    "65535",
    "65536",
    "4294967295",
    "4294967296",
    "2147483647",
    "2147483648",
    "-2147483648",
    "-2147483649",
    "9223372036854775807",
    "9223372036854775808",
    "-9223372036854775808",
    "-9223372036854775809",
    "18446744073709551615",
    "18446744073709551616",
    "000000000000000000000000000000000000000042",
    "-000000000000000000000000000000000000000042",
    "99999999999999999999999999999999999999999999",
    "9999999999999999999999999999999999999999999x",
    "N/A",
];

#[test]
fn integers_are_read_as_the_standard_library_reads_them() {
    for text in NUMBERS {
        assert_eq!(
            parse_integer(text, i64::MIN as i128, i64::MAX as i128, true),
            text.parse::<i64>().ok().map(i128::from),
            "{text:?} as i64"
        );
        assert_eq!(
            parse_integer(text, i32::MIN as i128, i32::MAX as i128, true),
            text.parse::<i32>().ok().map(i128::from),
            "{text:?} as i32"
        );
        assert_eq!(
            parse_integer(text, 0, u32::MAX as i128, false),
            text.parse::<u32>().ok().map(i128::from),
            "{text:?} as u32"
        );
        assert_eq!(
            parse_integer(text, 0, u16::MAX as i128, false),
            text.parse::<u16>().ok().map(i128::from),
            "{text:?} as u16"
        );
        assert_eq!(
            parse_integer(text, 0, u64::MAX as i128, false),
            text.parse::<u64>().ok().map(i128::from),
            "{text:?} as u64"
        );
    }
}

const TEXTS: [&str; 16] = [
    "",
    "\n",
    "\r\n",
    "a",
    "a\n",
    "a\nb",
    "a\r\nb\r\n",
    "a\rb\n",
    "a\r",
    "\n\n",
    "a\n\nb\n\n",
    "\r\r\n",
    "|a|=b||",
    "x=1|y=\"2\"|z",
    "é\nü|ö\n",
    "a,b,,c,",
];

#[test]
fn texts_are_taken_apart_as_the_standard_library_does() {
    for text in TEXTS {
        assert_eq!(lines(text), text.lines().collect::<Vec<_>>(), "lines of {text:?}");
        for sep in ['|', '=', ',', '\n', 'é'] {
            assert_eq!(split(text, sep), text.split(sep).collect::<Vec<_>>(), "{text:?} at {sep:?}");
            assert_eq!(split_once(text, sep), text.split_once(sep), "{text:?} once at {sep:?}");
            assert_eq!(
                find_char(text, sep),
                text.chars().position(|c| c == sep).unwrap_or(text.chars().count())
            );
            assert_eq!(trim_matches(text, sep), text.trim_matches(sep));
        }
        for other in TEXTS {
            assert_eq!(same_text(text, other), text == other);
        }
    }
    assert_eq!(unquote("\"\"a\"b\"\""), "a\"b");
    assert_eq!(unquote("\"\""), "");
    assert_eq!(unquote(" \"a\""), " \"a");
}

#[test]
fn optional_values_are_absent_or_read_or_refused() {
    assert_eq!(parse_optional_u32(None, "width").expect("none"), None);
    assert_eq!(parse_optional_u32(Some(""), "width").expect("none"), None);
    assert_eq!(parse_optional_u32(Some("N/A"), "width").expect("none"), None);
    assert_eq!(parse_optional_u32(Some("1920"), "width").expect("value"), Some(1920));
    assert_eq!(
        parse_fault(parse_optional_u32(Some(" 1920"), "width").expect_err("white space")),
        ("width", String::from(" 1920"))
    );
    assert_eq!(
        parse_fault(parse_optional_u32(Some("-1"), "width").expect_err("negative")),
        ("width", String::from("-1"))
    );
    assert_eq!(
        parse_fault(parse_optional_u32(Some("n/a"), "width").expect_err("not absent")),
        ("width", String::from("n/a"))
    );
    assert_eq!(parse_optional_u16(Some("65535"), "channels").expect("value"), Some(u16::MAX));
    assert_eq!(
        parse_fault(parse_optional_u16(Some("65536"), "channels").expect_err("too large")),
        ("channels", String::from("65536"))
    );
    assert_eq!(parse_optional_i64(Some("-42"), "start_pts").expect("value"), Some(-42));
    assert_eq!(
        parse_optional_i64(Some("-9223372036854775808"), "start_pts").expect("value"),
        Some(i64::MIN)
    );
    assert_eq!(
        parse_fault(parse_optional_i64(Some("1e3"), "start_pts").expect_err("no integer")),
        ("start_pts", String::from("1e3"))
    );

    assert_eq!(parse_i32(" 25\t", "n").expect("value"), 25);
    assert_eq!(parse_i32("-7", "n").expect("value"), -7);
    assert_eq!(parse_fault(parse_i32(" 2 5 ", "n").expect_err("gap")), ("n", String::from(" 2 5 ")));
    assert_eq!(parse_fault(parse_i32("", "n").expect_err("empty")), ("n", String::new()));
}

#[test]
fn time_bases_are_read_from_two_integers_around_a_slash() {
    assert_eq!(Rational::parse("1/15360").expect("valid"), Rational { num: 1, den: 15_360 });
    assert_eq!(Rational::parse(" 30000 / 1001 ").expect("valid"), Rational { num: 30_000, den: 1_001 });
    assert_eq!(
        parse_fault(Rational::parse("25").expect_err("no slash")),
        ("rational", String::from("25"))
    );
    assert_eq!(
        parse_fault(Rational::parse("a/25").expect_err("no numerator")),
        ("rational num", String::from("a"))
    );
    assert_eq!(
        parse_fault(Rational::parse("1/2/3").expect_err("second slash")),
        ("rational den", String::from("2/3"))
    );
    assert_eq!(
        parse_fault(Rational::parse("1/").expect_err("no denominator")),
        ("rational den", String::new())
    );
    for (text, num, den) in [("0/1", 0, 1), ("1/0", 1, 0), ("-1/25", -1, 25), ("1/-25", 1, -25)] {
        assert!(matches!(
            Rational::parse(text),
            Err(MediaFfmpegError::InvalidRational { num: n, den: d }) if n == num && d == den
        ));
    }

    assert_eq!(parse_optional_rational(None, "time_base").expect("none"), None);
    for absent in ["", "N/A", "0/0"] {
        assert_eq!(parse_optional_rational(Some(absent), "time_base").expect("none"), None);
    }
    assert_eq!(
        parse_optional_rational(Some("1/90000"), "time_base").expect("value"),
        Some(Rational { num: 1, den: 90_000 })
    );
    for bad in ["0/1", "x", "1/ 0", " 0/0"] {
        assert_eq!(
            parse_fault(parse_optional_rational(Some(bad), "r_frame_rate").expect_err("bad")),
            ("r_frame_rate", String::from(bad))
        );
    }
}

const VIDEO_LINE: &str = "index=0|codec_name=h264|codec_type=video|width=1920|height=1080|\
pix_fmt=yuv420p|r_frame_rate=30000/1001|time_base=1/30000|start_pts=0|duration_ts=300300";
const AUDIO_LINE: &str = "index=1|codec_name=aac|codec_type=audio|sample_rate=48000|channels=2|\
channel_layout=stereo|r_frame_rate=0/0|time_base=1/48000|start_pts=-1024|duration_ts=N/A";

#[test]
fn a_stream_line_is_read_field_by_field() {
    assert_eq!(
        parse_stream_line(VIDEO_LINE).expect("video"),
        StreamInfo {
            index: 0,
            kind: StreamKind::Video,
            codec_name: Some(String::from("h264")),
            time_base: Rational { num: 1, den: 30_000 },
            width: Some(1920),
            height: Some(1080),
            r_frame_rate: Some(Rational { num: 30_000, den: 1_001 }),
            sample_rate: None,
            channels: None,
            channel_layout: None,
            start_pts: Some(0),
            duration_ts: Some(300_300),
        }
    );
    assert_eq!(
        parse_stream_line(AUDIO_LINE).expect("audio"),
        StreamInfo {
            index: 1,
            kind: StreamKind::Audio,
            codec_name: Some(String::from("aac")),
            time_base: Rational { num: 1, den: 48_000 },
            width: None,
            height: None,
            r_frame_rate: None,
            sample_rate: Some(48_000),
            channels: Some(2),
            channel_layout: Some(String::from("stereo")),
            start_pts: Some(-1_024),
            duration_ts: None,
        }
    );
    let other = parse_stream_line(
        " codec_type = \"subtitle\" | index = \"7\" |time_base=\"1/1000\"|index=3|codec_name=",
    )
    .expect("other");
    assert_eq!(other.kind, StreamKind::Other);
    // Of two fields with one key the later one counts.
    assert_eq!(other.index, 3);
    assert_eq!(other.codec_name, Some(String::new()));
    assert_eq!(other.channel_layout, None);
}

/// The same reading with the standard library's own means.
fn read_with_map(line: &str) -> Result<StreamInfo, (&'static str, String)> {
    fn number<T: std::str::FromStr>(
        value: Option<&str>,
        context: &'static str,
    ) -> Result<Option<T>, (&'static str, String)> {
        match value {
            None | Some("") | Some("N/A") => Ok(None),
            Some(raw) => raw.parse::<T>().map(Some).map_err(|_| (context, raw.to_string())),
        }
    }
    fn rational(
        value: Option<&str>,
        context: &'static str,
    ) -> Result<Option<Rational>, (&'static str, String)> {
        match value {
            None | Some("") | Some("N/A") | Some("0/0") => Ok(None),
            Some(raw) => {
                let parsed = raw.split_once('/').and_then(|(num, den)| {
                    let num = num.trim().parse::<i32>().ok()?;
                    let den = den.trim().parse::<i32>().ok()?;
                    Rational::new(num, den).ok()
                });
                parsed.map(Some).ok_or((context, raw.to_string()))
            }
        }
    }
    let mut map = HashMap::<&str, &str>::new();
    for field in line.split('|') {
        let (key, value) = field.split_once('=').ok_or(("stream field", field.to_string()))?;
        map.insert(key.trim(), value.trim().trim_matches('"'));
    }
    let codec_type = map.get("codec_type").copied().ok_or(("codec_type", line.to_string()))?;
    let kind = match codec_type {
        "video" => StreamKind::Video,
        "audio" => StreamKind::Audio,
        _ => StreamKind::Other,
    };
    let index = number::<u32>(map.get("index").copied(), "stream index")?
        .ok_or(("stream index", line.to_string()))?;
    let time_base = rational(map.get("time_base").copied(), "time_base")?
        .ok_or(("time_base", line.to_string()))?;
    Ok(StreamInfo {
        index,
        kind,
        codec_name: map.get("codec_name").map(|value| value.to_string()),
        time_base,
        width: number(map.get("width").copied(), "width")?,
        height: number(map.get("height").copied(), "height")?,
        r_frame_rate: rational(map.get("r_frame_rate").copied(), "r_frame_rate")?,
        sample_rate: number(map.get("sample_rate").copied(), "sample_rate")?,
        channels: number(map.get("channels").copied(), "channels")?,
        channel_layout: map
            .get("channel_layout")
            .filter(|value| !value.is_empty() && **value != "N/A")
            .map(|value| value.to_string()),
        start_pts: number(map.get("start_pts").copied(), "start_pts")?,
        duration_ts: number(map.get("duration_ts").copied(), "duration_ts")?,
    })
}

#[test]
fn stream_lines_are_read_as_a_map_of_fields_reads_them() {
    let lines = [
        VIDEO_LINE,
        AUDIO_LINE,
        "",
        "|",
        "codec_type=video",
        "codec_type=video|index=0",
        "codec_type=video|index=|time_base=1/25",
        "codec_type=video|index=N/A|time_base=1/25",
        "codec_type=video|index=x|time_base=1/25",
        "codec_type=video|index=0|time_base=0/0",
        "codec_type=video|index=0|time_base=1/0",
        "codec_type=video|index=0|time_base=1/25|width=a|height=b",
        "codec_type=video|index=0|time_base=1/25|height=b|r_frame_rate=1",
        "codec_type=video|index=0|time_base=1/25|r_frame_rate=1|sample_rate=-1",
        "codec_type=video|index=0|time_base=1/25|sample_rate=4294967296|channels=70000",
        "codec_type=video|index=0|time_base=1/25|channels=70000|start_pts=1.5",
        "codec_type=video|index=0|time_base=1/25|start_pts=1.5|duration_ts=--1",
        "codec_type=video|index=0|time_base=1/25|duration_ts=--1",
        "codec_type=video|index=0|time_base=1/25|duration_ts=9223372036854775808",
        "codec_type=video|index=0|time_base=1/25|oops",
        "oops|codec_type=video|index=0|time_base=1/25",
        "codec_type=video|index=0|time_base=1/25|",
        "codec_type=video|index=0|time_base=1/25|=",
        "codec_type=video|index=0|time_base=1/25|time_base=2/50|index=9",
        "codec_type=AUDIO|index=0|time_base= 1/25 |channel_layout=N/A|codec_name=\"\"x\"\"",
        "codec_type=\"audio\"|index=\"+0\"|time_base=\"1/+25\"|channel_layout=\"5.1(side)\"",
        "codec_type = audio|index= 0 |time_base=1 / 25|a=b=c|codec_name=a=b",
        "codec_type=audio|index=0|time_base=1/25|codec_type=video|index =1| index=2",
        "codec_type=audio\u{3000}|index=0\u{a0}|time_base=1/25|channel_layout=\t\n",
        "\"codec_type\"=audio|index=0|time_base=1/25",
        "codec_type=audio|index=0|time_base=1/25\r",
    ];
    for line in lines {
        let expected = read_with_map(line);
        let found = parse_stream_line(line).map_err(parse_fault);
        assert_eq!(found, expected, "{line:?}");
    }
}

#[test]
fn a_stream_listing_has_one_stream_per_line_that_is_not_blank() {
    let listing = format!("\n{VIDEO_LINE}\r\n  \t\n{AUDIO_LINE}\n\n");
    let streams = parse_stream_listing(&listing).expect("streams");
    assert_eq!(
        streams,
        vec![
            parse_stream_line(VIDEO_LINE).expect("video"),
            parse_stream_line(AUDIO_LINE).expect("audio"),
        ]
    );
    // The last line may lack its line feed.
    assert_eq!(parse_stream_listing(AUDIO_LINE).expect("streams").len(), 1);

    for empty in ["", "\n", " \r\n\t\n"] {
        assert_eq!(
            parse_fault(parse_stream_listing(empty).expect_err("empty")),
            ("streams", String::from("no streams found"))
        );
    }
    let faulty = format!("{VIDEO_LINE}\ncodec_type=video|index=1\nnonsense\n");
    assert_eq!(
        parse_fault(parse_stream_listing(&faulty).expect_err("faulty")),
        ("time_base", String::from("codec_type=video|index=1"))
    );
}

#[test]
fn frame_timestamps_are_read_from_the_first_column() {
    assert_eq!(parse_frame_timestamps("").expect("none"), Vec::<i64>::new());
    assert_eq!(
        parse_frame_timestamps("0\n1001,side\r\n\n   \nN/A\n,5\n-3003,\n+7").expect("timestamps"),
        vec![0, 1_001, -3_003, 7]
    );
    assert_eq!(
        parse_fault(parse_frame_timestamps("0\n 1001\n2002").expect_err("white space")),
        ("best_effort_timestamp", String::from(" 1001"))
    );
    assert_eq!(
        parse_fault(parse_frame_timestamps("0\n1.5,2\nx").expect_err("no integer")),
        ("best_effort_timestamp", String::from("1.5"))
    );
    // A carriage return without a line feed stays with the last line.
    assert_eq!(
        parse_fault(parse_frame_timestamps("0\n5\r").expect_err("carriage return")),
        ("best_effort_timestamp", String::from("5\r"))
    );
}

#[test]
fn a_position_is_decoded_on_the_clock_of_the_stream() {
    let video = Rational { num: 1, den: 90_000 };
    assert_eq!(target_timestamp(1_500_000, video).expect("target"), 135_000);
    assert_eq!(target_timestamp(0, video).expect("target"), 0);
    assert!(matches!(
        target_timestamp(-1, video),
        Err(MediaFfmpegError::InvalidTimestamp { source_tl: -1 })
    ));
    assert_eq!(decode_filter(135_000), "select=gte(pts\\,135000),format=rgba");
    assert_eq!(decode_filter(-5), "select=gte(pts\\,-5),format=rgba");
}

#[test]
fn decoded_bytes_must_fill_the_frame() {
    let frame = frame_from_bytes(2, 1, vec![7; 8], 33, Rational { num: 1, den: 25 }).expect("frame");
    assert_eq!((frame.width, frame.height, frame.best_effort_timestamp), (2, 1, 33));
    assert_eq!(frame.rgba, vec![7; 8]);
    assert_eq!(frame.time_base, Rational { num: 1, den: 25 });
    assert_eq!(
        parse_fault(
            frame_from_bytes(2, 1, vec![7; 7], 33, Rational { num: 1, den: 25 })
                .expect_err("short")
        ),
        ("decoded rgba size", String::from("expected 8 bytes, got 7"))
    );
    assert_eq!(
        parse_fault(
            frame_from_bytes(u32::MAX, u32::MAX, vec![], 0, Rational { num: 1, den: 25 })
                .expect_err("huge")
        ),
        ("decoded rgba size", String::from("expected 73786976260478468100 bytes, got 0"))
    );
}
