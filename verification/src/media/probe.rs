//! What a probe of a media file found.

use vstd::prelude::*;
use vstd::string::StringExecFns;
use crate::media::error::MediaFfmpegError;
use crate::text::{
    lines, lines_spec, parse_integer, parse_integer_spec, same_text, split, split_once,
    split_once_spec, split_spec, texts_view, trim, trim_matches, trim_matches_spec, trim_spec,
};
use crate::time::Rational;

verus! {

/// Stream kind discovered by probe.
#[derive(Debug, Clone, Copy, PartialEq, Eq)]
pub enum StreamKind {
    Video,
    Audio,
    Other,
}

/// Stream metadata read from the probe tool.
#[derive(Debug, PartialEq, Eq)]
pub struct StreamInfo {
    pub index: u32,
    pub kind: StreamKind,
    pub codec_name: Option<String>,
    pub time_base: Rational,
    pub width: Option<u32>,
    pub height: Option<u32>,
    pub r_frame_rate: Option<Rational>,
    pub sample_rate: Option<u32>,
    pub channels: Option<u16>,
    pub channel_layout: Option<String>,
    pub start_pts: Option<i64>,
    pub duration_ts: Option<i64>,
}

/// Media probe result. The container's duration is counted in timeline
/// ticks.
#[derive(Debug, PartialEq, Eq)]
pub struct MediaInfo {
    pub path: String,
    pub streams: Vec<StreamInfo>,
    pub duration_tl: Option<i64>,
}

/// Index of the first stream at or after `from` of kind `kind`.
pub open spec fn first_of_kind_from(streams: Seq<StreamInfo>, kind: StreamKind, from: int) -> Option<
    int,
>
    decreases streams.len() - from,
{
    if from < 0 || from >= streams.len() {
        None
    } else if streams[from].kind == kind {
        Some(from)
    } else {
        first_of_kind_from(streams, kind, from + 1)
    }
}

/// Index of the first stream of kind `kind`.
pub open spec fn first_of_kind(streams: Seq<StreamInfo>, kind: StreamKind) -> Option<int> {
    first_of_kind_from(streams, kind, 0)
}

/// A search from `from` returns the least matching index at or after it.
pub proof fn lemma_first_of_kind_from(streams: Seq<StreamInfo>, kind: StreamKind, from: int)
    requires
        0 <= from <= streams.len(),
    ensures
        match first_of_kind_from(streams, kind, from) {
            Some(i) => from <= i < streams.len() && streams[i].kind == kind && forall|j: int|
                from <= j < i ==> (#[trigger] streams[j]).kind != kind,
            None => forall|j: int|
                from <= j < streams.len() ==> (#[trigger] streams[j]).kind != kind,
        },
    decreases streams.len() - from,
{
    if from < streams.len() && streams[from].kind != kind {
        lemma_first_of_kind_from(streams, kind, from + 1);
    }
}

impl MediaInfo {
    /// Finds the first stream of the given kind.
    fn first_stream(&self, kind: StreamKind) -> (out: Option<&StreamInfo>)
        ensures
            match first_of_kind(self.streams@, kind) {
                Some(i) => 0 <= i < self.streams@.len() && out is Some && *out->0
                    == self.streams@[i],
                None => out is None,
            },
    {
        let mut i: usize = 0;
        proof {
            lemma_first_of_kind_from(self.streams@, kind, 0);
        }
        while i < self.streams.len()
            invariant
                i <= self.streams@.len(),
                forall|j: int| 0 <= j < i ==> (#[trigger] self.streams@[j]).kind != kind,
                match first_of_kind_from(self.streams@, kind, 0) {
                    Some(k) => 0 <= k < self.streams@.len() && self.streams@[k].kind == kind
                        && forall|j: int| 0 <= j < k ==> (#[trigger] self.streams@[j]).kind != kind,
                    None => forall|j: int|
                        0 <= j < self.streams@.len() ==> (#[trigger] self.streams@[j]).kind
                            != kind,
                },
            decreases self.streams@.len() - i,
        {
            let same = match (self.streams[i].kind, kind) {
                (StreamKind::Video, StreamKind::Video) => true,
                (StreamKind::Audio, StreamKind::Audio) => true,
                (StreamKind::Other, StreamKind::Other) => true,
                _ => false,
            };
            if same {
                return Some(&self.streams[i]);
            }
            i += 1;
        }
        None
    }

    /// Returns the first video stream.
    pub fn first_video(&self) -> (out: Option<&StreamInfo>)
        ensures
            match first_of_kind(self.streams@, StreamKind::Video) {
                Some(i) => 0 <= i < self.streams@.len() && out is Some && *out->0
                    == self.streams@[i],
                None => out is None,
            },
    {
        self.first_stream(StreamKind::Video)
    }

    /// Returns the first audio stream.
    pub fn first_audio(&self) -> (out: Option<&StreamInfo>)
        ensures
            match first_of_kind(self.streams@, StreamKind::Audio) {
                Some(i) => 0 <= i < self.streams@.len() && out is Some && *out->0
                    == self.streams@[i],
                None => out is None,
            },
    {
        self.first_stream(StreamKind::Audio)
    }
}


/// A value that could not be read, and what it was read for.
pub struct ParseFault {
    pub context: Seq<char>,
    pub value: Seq<char>,
}

/// Whether `error` is the parse error that reports `fault`.
pub open spec fn reports_parse(error: MediaFfmpegError, fault: ParseFault) -> bool {
    &&& error is Parse
    &&& error->Parse_context@ == fault.context
    &&& error->Parse_value@ == fault.value
}

/// The parse error for `value`, read for `context`.
fn parse_error(context: &'static str, value: &str) -> (out: MediaFfmpegError)
    ensures
        reports_parse(out, ParseFault { context: context@, value: value@ }),
{
    MediaFfmpegError::Parse { context, value: String::from_str(value) }
}

/// The 32-bit integer that `value` writes between white space.
pub open spec fn i32_spec(value: Seq<char>) -> Option<int> {
    parse_integer_spec(trim_spec(value), i32::MIN as int, i32::MAX as int, true)
}

/// Reads a 32-bit integer, white space around it left aside.
pub fn parse_i32(value: &str, context: &'static str) -> (out: Result<i32, MediaFfmpegError>)
    ensures
        match i32_spec(value@) {
            Some(v) => out == Ok::<i32, MediaFfmpegError>(v as i32),
            None => out is Err && reports_parse(
                out->Err_0,
                ParseFault { context: context@, value: value@ },
            ),
        },
{
    match parse_integer(trim(value), i32::MIN as i128, i32::MAX as i128, true) {
        Some(v) => Ok(v as i32),
        None => Err(parse_error(context, value)),
    }
}

/// Why a text is no time base.
pub enum RationalFault {
    /// It does not have the form of two integers around a slash.
    Parse(ParseFault),
    /// Its numerator or its denominator is not positive.
    Invalid { num: i32, den: i32 },
}

/// The time base that `input` writes as `num/den`.
pub open spec fn rational_spec(input: Seq<char>) -> Result<Rational, RationalFault> {
    match split_once_spec(input, '/') {
        None => Err(RationalFault::Parse(ParseFault { context: "rational"@, value: input })),
        Some((num_text, den_text)) => match i32_spec(num_text) {
            None => Err(
                RationalFault::Parse(ParseFault { context: "rational num"@, value: num_text }),
            ),
            Some(num) => match i32_spec(den_text) {
                None => Err(
                    RationalFault::Parse(ParseFault { context: "rational den"@, value: den_text }),
                ),
                Some(den) => if num > 0 && den > 0 {
                    Ok(Rational { num: num as i32, den: den as i32 })
                } else {
                    Err(RationalFault::Invalid { num: num as i32, den: den as i32 })
                },
            },
        },
    }
}

impl Rational {
    /// Parses a `num/den` text into a time base.
    pub fn parse(input: &str) -> (out: Result<Rational, MediaFfmpegError>)
        ensures
            match rational_spec(input@) {
                Ok(r) => out == Ok::<Rational, MediaFfmpegError>(r) && r.wf(),
                Err(RationalFault::Parse(fault)) => out is Err && reports_parse(out->Err_0, fault),
                Err(RationalFault::Invalid { num, den }) => out == Err::<
                    Rational,
                    MediaFfmpegError,
                >(MediaFfmpegError::InvalidRational { num, den }),
            },
    {
        let (num_text, den_text) = match split_once(input, '/') {
            Some(parts) => parts,
            None => {
                return Err(parse_error("rational", input));
            },
        };
        let num = match parse_i32(num_text, "rational num") {
            Ok(num) => num,
            Err(e) => {
                return Err(e);
            },
        };
        let den = match parse_i32(den_text, "rational den") {
            Ok(den) => den,
            Err(e) => {
                return Err(e);
            },
        };
        if num <= 0 || den <= 0 {
            return Err(MediaFfmpegError::InvalidRational { num, den });
        }
        Ok(Rational { num, den })
    }
}

/// Whether a field value stands for no value.
pub open spec fn is_absent(raw: Seq<char>) -> bool {
    raw.len() == 0 || raw == "N/A"@
}

/// Tells whether a field value stands for no value.
fn absent(raw: &str) -> (out: bool)
    ensures
        out == is_absent(raw@),
{
    raw.unicode_len() == 0 || same_text(raw, "N/A")
}

/// The integer in `[min, max]` that an optional field value writes: none
/// for a missing or absent value, and the value itself as the error when
/// it writes no such integer.
pub open spec fn optional_integer_spec(value: Option<Seq<char>>, min: int, max: int, signed: bool) -> Result<
    Option<int>,
    Seq<char>,
> {
    match value {
        None => Ok(None),
        Some(raw) => if is_absent(raw) {
            Ok(None)
        } else {
            match parse_integer_spec(raw, min, max, signed) {
                Some(v) => Ok(Some(v)),
                None => Err(raw),
            }
        },
    }
}

/// Reads an optional integer in `[min, max]`.
fn parse_optional_integer(
    value: Option<&str>,
    context: &'static str,
    min: i128,
    max: i128,
    signed: bool,
) -> (out: Result<Option<i128>, MediaFfmpegError>)
    requires
        -0x1_0000_0000_0000_0000 <= min <= max <= 0x1_0000_0000_0000_0000,
    ensures
        match optional_integer_spec(
            match value {
                Some(raw) => Some(raw@),
                None => None,
            },
            min as int,
            max as int,
            signed,
        ) {
            Ok(Some(v)) => out == Ok::<Option<i128>, MediaFfmpegError>(Some(v as i128)) && min <= v
                <= max,
            Ok(None) => out == Ok::<Option<i128>, MediaFfmpegError>(None),
            Err(raw) => out is Err && reports_parse(
                out->Err_0,
                ParseFault { context: context@, value: raw },
            ),
        },
{
    let raw = match value {
        Some(raw) => raw,
        None => {
            return Ok(None);
        },
    };
    if absent(raw) {
        return Ok(None);
    }
    match parse_integer(raw, min, max, signed) {
        Some(v) => Ok(Some(v)),
        None => Err(parse_error(context, raw)),
    }
}

/// The view of an optional text.
pub open spec fn optional_text(value: Option<&str>) -> Option<Seq<char>> {
    match value {
        Some(raw) => Some(raw@),
        None => None,
    }
}

/// Reads an optional unsigned 32-bit field value.
pub fn parse_optional_u32(value: Option<&str>, context: &'static str) -> (out: Result<
    Option<u32>,
    MediaFfmpegError,
>)
    ensures
        match optional_integer_spec(optional_text(value), 0, u32::MAX as int, false) {
            Ok(Some(v)) => out == Ok::<Option<u32>, MediaFfmpegError>(Some(v as u32)),
            Ok(None) => out == Ok::<Option<u32>, MediaFfmpegError>(None),
            Err(raw) => out is Err && reports_parse(
                out->Err_0,
                ParseFault { context: context@, value: raw },
            ),
        },
{
    match parse_optional_integer(value, context, 0, u32::MAX as i128, false) {
        Ok(Some(v)) => Ok(Some(v as u32)),
        Ok(None) => Ok(None),
        Err(e) => Err(e),
    }
}

/// Reads an optional unsigned 16-bit field value.
pub fn parse_optional_u16(value: Option<&str>, context: &'static str) -> (out: Result<
    Option<u16>,
    MediaFfmpegError,
>)
    ensures
        match optional_integer_spec(optional_text(value), 0, u16::MAX as int, false) {
            Ok(Some(v)) => out == Ok::<Option<u16>, MediaFfmpegError>(Some(v as u16)),
            Ok(None) => out == Ok::<Option<u16>, MediaFfmpegError>(None),
            Err(raw) => out is Err && reports_parse(
                out->Err_0,
                ParseFault { context: context@, value: raw },
            ),
        },
{
    match parse_optional_integer(value, context, 0, u16::MAX as i128, false) {
        Ok(Some(v)) => Ok(Some(v as u16)),
        Ok(None) => Ok(None),
        Err(e) => Err(e),
    }
}

/// Reads an optional signed 64-bit field value.
pub fn parse_optional_i64(value: Option<&str>, context: &'static str) -> (out: Result<
    Option<i64>,
    MediaFfmpegError,
>)
    ensures
        match optional_integer_spec(optional_text(value), i64::MIN as int, i64::MAX as int, true) {
            Ok(Some(v)) => out == Ok::<Option<i64>, MediaFfmpegError>(Some(v as i64)),
            Ok(None) => out == Ok::<Option<i64>, MediaFfmpegError>(None),
            Err(raw) => out is Err && reports_parse(
                out->Err_0,
                ParseFault { context: context@, value: raw },
            ),
        },
{
    match parse_optional_integer(value, context, i64::MIN as i128, i64::MAX as i128, true) {
        Ok(Some(v)) => Ok(Some(v as i64)),
        Ok(None) => Ok(None),
        Err(e) => Err(e),
    }
}

/// The time base that an optional field value writes: none for a missing
/// or absent value and for `0/0`, and the value itself as the error when
/// it writes no time base.
pub open spec fn optional_rational_spec(value: Option<Seq<char>>) -> Result<
    Option<Rational>,
    Seq<char>,
> {
    match value {
        None => Ok(None),
        Some(raw) => if is_absent(raw) || raw == "0/0"@ {
            Ok(None)
        } else {
            match rational_spec(raw) {
                Ok(r) => Ok(Some(r)),
                Err(_) => Err(raw),
            }
        },
    }
}

/// Reads an optional time base.
pub fn parse_optional_rational(value: Option<&str>, context: &'static str) -> (out: Result<
    Option<Rational>,
    MediaFfmpegError,
>)
    ensures
        match optional_rational_spec(optional_text(value)) {
            Ok(Some(r)) => out == Ok::<Option<Rational>, MediaFfmpegError>(Some(r)) && r.wf(),
            Ok(None) => out == Ok::<Option<Rational>, MediaFfmpegError>(None),
            Err(raw) => out is Err && reports_parse(
                out->Err_0,
                ParseFault { context: context@, value: raw },
            ),
        },
{
    let raw = match value {
        Some(raw) => raw,
        None => {
            return Ok(None);
        },
    };
    if absent(raw) || same_text(raw, "0/0") {
        return Ok(None);
    }
    match Rational::parse(raw) {
        Ok(r) => Ok(Some(r)),
        Err(_) => Err(parse_error(context, raw)),
    }
}

/// Returns a value without the double quotes around it.
pub fn unquote(value: &str) -> (out: &str)
    ensures
        out@ == trim_matches_spec(value@, '"'),
{
    trim_matches(value, '"')
}


/// Stream metadata with its texts as character sequences.
pub struct StreamInfoView {
    pub index: u32,
    pub kind: StreamKind,
    pub codec_name: Option<Seq<char>>,
    pub time_base: Rational,
    pub width: Option<u32>,
    pub height: Option<u32>,
    pub r_frame_rate: Option<Rational>,
    pub sample_rate: Option<u32>,
    pub channels: Option<u16>,
    pub channel_layout: Option<Seq<char>>,
    pub start_pts: Option<i64>,
    pub duration_ts: Option<i64>,
}

/// The view of an optional owned text.
pub open spec fn optional_string(value: Option<String>) -> Option<Seq<char>> {
    match value {
        Some(text) => Some(text@),
        None => None,
    }
}

impl View for StreamInfo {
    type V = StreamInfoView;

    open spec fn view(&self) -> StreamInfoView {
        StreamInfoView {
            index: self.index,
            kind: self.kind,
            codec_name: optional_string(self.codec_name),
            time_base: self.time_base,
            width: self.width,
            height: self.height,
            r_frame_rate: self.r_frame_rate,
            sample_rate: self.sample_rate,
            channels: self.channels,
            channel_layout: optional_string(self.channel_layout),
            start_pts: self.start_pts,
            duration_ts: self.duration_ts,
        }
    }
}

/// The key and the value of one field.
pub struct FieldEntry {
    pub key: Seq<char>,
    pub value: Seq<char>,
}

/// The key and the value of a field `key=value`: the key without white
/// space around it, the value without white space and then without double
/// quotes around it. A field without an equals sign has neither.
pub open spec fn entry_of(field: Seq<char>) -> Option<FieldEntry> {
    match split_once_spec(field, '=') {
        None => None,
        Some((key, value)) => Some(
            FieldEntry { key: trim_spec(key), value: trim_matches_spec(trim_spec(value), '"') },
        ),
    }
}

/// The first field among the first `n` that has no equals sign.
pub open spec fn first_malformed(fields: Seq<Seq<char>>, n: int) -> Option<Seq<char>>
    decreases n,
{
    if n <= 0 {
        None
    } else {
        match first_malformed(fields, n - 1) {
            Some(field) => Some(field),
            None => if entry_of(fields[n - 1]) is None {
                Some(fields[n - 1])
            } else {
                None
            },
        }
    }
}

/// The value under `key` in the first `n` fields: that of the last field
/// with the key.
pub open spec fn lookup(fields: Seq<Seq<char>>, key: Seq<char>, n: int) -> Option<Seq<char>>
    decreases n,
{
    if n <= 0 {
        None
    } else if entry_of(fields[n - 1]) is Some && entry_of(fields[n - 1])->0.key == key {
        Some(entry_of(fields[n - 1])->0.value)
    } else {
        lookup(fields, key, n - 1)
    }
}

/// The value under `key` in a line of fields.
pub open spec fn field_value(line: Seq<char>, key: Seq<char>) -> Option<Seq<char>> {
    lookup(split_spec(line, '|'), key, split_spec(line, '|').len() as int)
}

/// The kind of stream that a codec type names.
pub open spec fn kind_of(codec_type: Seq<char>) -> StreamKind {
    if codec_type == "video"@ {
        StreamKind::Video
    } else if codec_type == "audio"@ {
        StreamKind::Audio
    } else {
        StreamKind::Other
    }
}

/// The unsigned 32-bit value under `key`.
pub open spec fn u32_field(line: Seq<char>, key: Seq<char>) -> Result<Option<int>, Seq<char>> {
    optional_integer_spec(field_value(line, key), 0, u32::MAX as int, false)
}

/// The signed 64-bit value under `key`.
pub open spec fn i64_field(line: Seq<char>, key: Seq<char>) -> Result<Option<int>, Seq<char>> {
    optional_integer_spec(field_value(line, key), i64::MIN as int, i64::MAX as int, true)
}

/// What keeps a line of fields from describing a stream, if anything: a
/// field without an equals sign, a missing codec type, a missing or
/// unreadable stream index or time base, or another value that cannot be
/// read, looked for in this order.
pub open spec fn stream_line_fault(line: Seq<char>) -> Option<ParseFault> {
    let fields = split_spec(line, '|');
    let index = u32_field(line, "index"@);
    let time_base = optional_rational_spec(field_value(line, "time_base"@));
    let width = u32_field(line, "width"@);
    let height = u32_field(line, "height"@);
    let frame_rate = optional_rational_spec(field_value(line, "r_frame_rate"@));
    let sample_rate = u32_field(line, "sample_rate"@);
    let channels = optional_integer_spec(
        field_value(line, "channels"@),
        0,
        u16::MAX as int,
        false,
    );
    let start_pts = i64_field(line, "start_pts"@);
    let duration_ts = i64_field(line, "duration_ts"@);
    if first_malformed(fields, fields.len() as int) is Some {
        Some(
            ParseFault {
                context: "stream field"@,
                value: first_malformed(fields, fields.len() as int)->0,
            },
        )
    } else if field_value(line, "codec_type"@) is None {
        Some(ParseFault { context: "codec_type"@, value: line })
    } else if index is Err {
        Some(ParseFault { context: "stream index"@, value: index->Err_0 })
    } else if index->Ok_0 is None {
        Some(ParseFault { context: "stream index"@, value: line })
    } else if time_base is Err {
        Some(ParseFault { context: "time_base"@, value: time_base->Err_0 })
    } else if time_base->Ok_0 is None {
        Some(ParseFault { context: "time_base"@, value: line })
    } else if width is Err {
        Some(ParseFault { context: "width"@, value: width->Err_0 })
    } else if height is Err {
        Some(ParseFault { context: "height"@, value: height->Err_0 })
    } else if frame_rate is Err {
        Some(ParseFault { context: "r_frame_rate"@, value: frame_rate->Err_0 })
    } else if sample_rate is Err {
        Some(ParseFault { context: "sample_rate"@, value: sample_rate->Err_0 })
    } else if channels is Err {
        Some(ParseFault { context: "channels"@, value: channels->Err_0 })
    } else if start_pts is Err {
        Some(ParseFault { context: "start_pts"@, value: start_pts->Err_0 })
    } else if duration_ts is Err {
        Some(ParseFault { context: "duration_ts"@, value: duration_ts->Err_0 })
    } else {
        None
    }
}

/// The 32-bit value that was read, if one was read.
pub open spec fn read_u32(value: Result<Option<int>, Seq<char>>) -> Option<u32> {
    match value {
        Ok(Some(v)) => Some(v as u32),
        _ => None,
    }
}

/// The 64-bit value that was read, if one was read.
pub open spec fn read_i64(value: Result<Option<int>, Seq<char>>) -> Option<i64> {
    match value {
        Ok(Some(v)) => Some(v as i64),
        _ => None,
    }
}

/// The stream that a line of fields without fault describes.
pub open spec fn stream_line_value(line: Seq<char>) -> StreamInfoView {
    let channels = optional_integer_spec(
        field_value(line, "channels"@),
        0,
        u16::MAX as int,
        false,
    );
    let layout = field_value(line, "channel_layout"@);
    StreamInfoView {
        index: read_u32(u32_field(line, "index"@))->0,
        kind: kind_of(field_value(line, "codec_type"@)->0),
        codec_name: field_value(line, "codec_name"@),
        time_base: optional_rational_spec(field_value(line, "time_base"@))->Ok_0->0,
        width: read_u32(u32_field(line, "width"@)),
        height: read_u32(u32_field(line, "height"@)),
        r_frame_rate: optional_rational_spec(field_value(line, "r_frame_rate"@))->Ok_0,
        sample_rate: read_u32(u32_field(line, "sample_rate"@)),
        channels: match channels {
            Ok(Some(v)) => Some(v as u16),
            _ => None,
        },
        channel_layout: if layout is Some && !is_absent(layout->0) {
            layout
        } else {
            None
        },
        start_pts: read_i64(i64_field(line, "start_pts"@)),
        duration_ts: read_i64(i64_field(line, "duration_ts"@)),
    }
}

/// The keys and values of the fields that were read so far.
struct Entries<'a> {
    keys: Vec<&'a str>,
    values: Vec<&'a str>,
}

impl<'a> Entries<'a> {
    /// The entries are those of the first `n` fields of `fields`.
    spec fn holds(&self, fields: Seq<Seq<char>>, n: int) -> bool {
        &&& 0 <= n <= fields.len()
        &&& self.keys@.len() == n
        &&& self.values@.len() == n
        &&& forall|i: int|
            0 <= i < n ==> {
                &&& entry_of(#[trigger] fields[i]) is Some
                &&& entry_of(fields[i])->0.key == self.keys@[i]@
                &&& entry_of(fields[i])->0.value == self.values@[i]@
            }
    }

    /// Finds the value under `key`.
    fn get(&self, key: &str, Ghost(fields): Ghost<Seq<Seq<char>>>) -> (out: Option<&'a str>)
        requires
            self.holds(fields, fields.len() as int),
        ensures
            optional_text(out) == lookup(fields, key@, fields.len() as int),
    {
        let mut i: usize = self.keys.len();
        while i > 0
            invariant
                self.holds(fields, fields.len() as int),
                i <= fields.len(),
                lookup(fields, key@, fields.len() as int) == lookup(fields, key@, i as int),
            decreases i,
        {
            i -= 1;
            assert(entry_of(fields[i as int]) is Some);
            if same_text(self.keys[i], key) {
                return Some(self.values[i]);
            }
        }
        None
    }
}

/// Reads the fields of a line into keys and values.
fn read_entries<'a>(line: &'a str) -> (out: Result<Entries<'a>, MediaFfmpegError>)
    ensures
        match first_malformed(split_spec(line@, '|'), split_spec(line@, '|').len() as int) {
            Some(field) => out is Err && reports_parse(
                out->Err_0,
                ParseFault { context: "stream field"@, value: field },
            ),
            None => out is Ok && out->Ok_0.holds(
                split_spec(line@, '|'),
                split_spec(line@, '|').len() as int,
            ),
        },
{
    let fields = split(line, '|');
    let ghost texts = split_spec(line@, '|');
    let mut entries = Entries { keys: Vec::new(), values: Vec::new() };
    let mut i: usize = 0;
    while i < fields.len()
        invariant
            texts == split_spec(line@, '|'),
            texts_view(fields@) == texts,
            i <= fields@.len(),
            first_malformed(texts, i as int) is None,
            entries.holds(texts, i as int),
        decreases fields@.len() - i,
    {
        let field = fields[i];
        assert(texts[i as int] == field@);
        match split_once(field, '=') {
            None => {
                proof {
                    lemma_malformed_persists(texts, i + 1, texts.len() as int);
                }
                return Err(parse_error("stream field", field));
            },
            Some((key, value)) => {
                entries.keys.push(trim(key));
                entries.values.push(unquote(trim(value)));
            },
        }
        i += 1;
    }
    Ok(entries)
}

/// A field without an equals sign among the first `m` fields is the first
/// such field of any longer prefix.
pub proof fn lemma_malformed_persists(fields: Seq<Seq<char>>, m: int, n: int)
    requires
        0 <= m <= n,
        first_malformed(fields, m) is Some,
    ensures
        first_malformed(fields, n) == first_malformed(fields, m),
    decreases n - m,
{
    if m < n {
        lemma_malformed_persists(fields, m, n - 1);
    }
}

/// Reads one line of the probe tool's stream listing: fields `key=value`
/// separated by bars. Of two fields with one key the later one counts.
pub fn parse_stream_line(line: &str) -> (out: Result<StreamInfo, MediaFfmpegError>)
    ensures
        match stream_line_fault(line@) {
            Some(fault) => out is Err && reports_parse(out->Err_0, fault),
            None => out is Ok && out->Ok_0@ == stream_line_value(line@) && out->Ok_0.time_base.wf(),
        },
{
    let ghost fields = split_spec(line@, '|');
    let entries = match read_entries(line) {
        Ok(entries) => entries,
        Err(e) => {
            return Err(e);
        },
    };
    let codec_type = match entries.get("codec_type", Ghost(fields)) {
        Some(codec_type) => codec_type,
        None => {
            return Err(parse_error("codec_type", line));
        },
    };
    let kind = if same_text(codec_type, "video") {
        StreamKind::Video
    } else if same_text(codec_type, "audio") {
        StreamKind::Audio
    } else {
        StreamKind::Other
    };
    let index = match parse_optional_u32(entries.get("index", Ghost(fields)), "stream index") {
        Ok(Some(index)) => index,
        Ok(None) => {
            return Err(parse_error("stream index", line));
        },
        Err(e) => {
            return Err(e);
        },
    };
    let time_base = match parse_optional_rational(
        entries.get("time_base", Ghost(fields)),
        "time_base",
    ) {
        Ok(Some(time_base)) => time_base,
        Ok(None) => {
            return Err(parse_error("time_base", line));
        },
        Err(e) => {
            return Err(e);
        },
    };
    let width = match parse_optional_u32(entries.get("width", Ghost(fields)), "width") {
        Ok(width) => width,
        Err(e) => {
            return Err(e);
        },
    };
    let height = match parse_optional_u32(entries.get("height", Ghost(fields)), "height") {
        Ok(height) => height,
        Err(e) => {
            return Err(e);
        },
    };
    let r_frame_rate = match parse_optional_rational(
        entries.get("r_frame_rate", Ghost(fields)),
        "r_frame_rate",
    ) {
        Ok(r_frame_rate) => r_frame_rate,
        Err(e) => {
            return Err(e);
        },
    };
    let sample_rate = match parse_optional_u32(
        entries.get("sample_rate", Ghost(fields)),
        "sample_rate",
    ) {
        Ok(sample_rate) => sample_rate,
        Err(e) => {
            return Err(e);
        },
    };
    let channels = match parse_optional_u16(entries.get("channels", Ghost(fields)), "channels") {
        Ok(channels) => channels,
        Err(e) => {
            return Err(e);
        },
    };
    let start_pts = match parse_optional_i64(entries.get("start_pts", Ghost(fields)), "start_pts") {
        Ok(start_pts) => start_pts,
        Err(e) => {
            return Err(e);
        },
    };
    let duration_ts = match parse_optional_i64(
        entries.get("duration_ts", Ghost(fields)),
        "duration_ts",
    ) {
        Ok(duration_ts) => duration_ts,
        Err(e) => {
            return Err(e);
        },
    };
    let codec_name = match entries.get("codec_name", Ghost(fields)) {
        Some(name) => Some(String::from_str(name)),
        None => None,
    };
    let channel_layout = match entries.get("channel_layout", Ghost(fields)) {
        Some(layout) => if absent(layout) {
            None
        } else {
            Some(String::from_str(layout))
        },
        None => None,
    };
    Ok(
        StreamInfo {
            index,
            kind,
            codec_name,
            time_base,
            width,
            height,
            r_frame_rate,
            sample_rate,
            channels,
            channel_layout,
            start_pts,
            duration_ts,
        },
    )
}

/// Whether a line holds white space only.
pub open spec fn is_blank(line: Seq<char>) -> bool {
    trim_spec(line).len() == 0
}

/// The first fault among the first `n` lines that are not blank.
pub open spec fn first_line_fault(lines: Seq<Seq<char>>, n: int) -> Option<ParseFault>
    decreases n,
{
    if n <= 0 {
        None
    } else {
        match first_line_fault(lines, n - 1) {
            Some(fault) => Some(fault),
            None => if is_blank(lines[n - 1]) {
                None
            } else {
                stream_line_fault(lines[n - 1])
            },
        }
    }
}

/// The streams that the first `n` lines describe, blank lines left out.
pub open spec fn line_streams(lines: Seq<Seq<char>>, n: int) -> Seq<StreamInfoView>
    decreases n,
{
    if n <= 0 {
        Seq::empty()
    } else if is_blank(lines[n - 1]) {
        line_streams(lines, n - 1)
    } else {
        line_streams(lines, n - 1).push(stream_line_value(lines[n - 1]))
    }
}

/// A fault among the first `m` lines is the first fault of any longer
/// prefix.
pub proof fn lemma_line_fault_persists(lines: Seq<Seq<char>>, m: int, n: int)
    requires
        0 <= m <= n,
        first_line_fault(lines, m) is Some,
    ensures
        first_line_fault(lines, n) == first_line_fault(lines, m),
    decreases n - m,
{
    if m < n {
        lemma_line_fault_persists(lines, m, n - 1);
    }
}

/// The views of a list of streams.
pub open spec fn streams_view(streams: Seq<StreamInfo>) -> Seq<StreamInfoView> {
    streams.map_values(|s: StreamInfo| s@)
}

/// What keeps a stream listing from being read, if anything: the first
/// fault of a line, or that no line describes a stream.
pub open spec fn stream_listing_fault(listing: Seq<char>) -> Option<ParseFault> {
    let lines = lines_spec(listing);
    match first_line_fault(lines, lines.len() as int) {
        Some(fault) => Some(fault),
        None => if line_streams(lines, lines.len() as int).len() == 0 {
            Some(ParseFault { context: "streams"@, value: "no streams found"@ })
        } else {
            None
        },
    }
}

/// Reads the probe tool's stream listing: one stream per line that is not
/// blank.
pub fn parse_stream_listing(listing: &str) -> (out: Result<Vec<StreamInfo>, MediaFfmpegError>)
    ensures
        match stream_listing_fault(listing@) {
            Some(fault) => out is Err && reports_parse(out->Err_0, fault),
            None => out is Ok && streams_view(out->Ok_0@) == line_streams(
                lines_spec(listing@),
                lines_spec(listing@).len() as int,
            ) && out->Ok_0@.len() > 0 && forall|i: int|
                0 <= i < out->Ok_0@.len() ==> (#[trigger] out->Ok_0@[i]).time_base.wf(),
        },
{
    let found = lines(listing);
    let ghost texts = lines_spec(listing@);
    let mut streams: Vec<StreamInfo> = Vec::new();
    let mut i: usize = 0;
    assert(streams_view(streams@) =~= line_streams(texts, 0));
    while i < found.len()
        invariant
            texts == lines_spec(listing@),
            texts_view(found@) == texts,
            i <= found@.len(),
            first_line_fault(texts, i as int) is None,
            streams_view(streams@) == line_streams(texts, i as int),
            forall|k: int| 0 <= k < streams@.len() ==> (#[trigger] streams@[k]).time_base.wf(),
        decreases found@.len() - i,
    {
        let line = found[i];
        assert(texts[i as int] == line@);
        if trim(line).unicode_len() != 0 {
            match parse_stream_line(line) {
                Ok(stream) => {
                    let ghost before = streams_view(streams@);
                    streams.push(stream);
                    assert(streams_view(streams@) =~= before.push(stream@));
                },
                Err(e) => {
                    proof {
                        lemma_line_fault_persists(texts, i + 1, texts.len() as int);
                    }
                    return Err(e);
                },
            }
        }
        i += 1;
    }
    if streams.len() == 0 {
        return Err(parse_error("streams", "no streams found"));
    }
    Ok(streams)
}

} // verus!
