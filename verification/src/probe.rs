//! Reading the JSON report `ffprobe -show_entries
//! stream=codec_type,codec_name,width,height,r_frame_rate,bit_rate:format=bit_rate -of json`
//! prints, and turning it into a video's technical metadata: the first video
//! stream gives the size, video codec and frame rate, the first audio stream
//! the audio codec, and the bitrate is the video stream's, else the
//! container's.

use vstd::prelude::*;
use crate::text::{parse_i64, parse_i64_chars, chars_of, vec_eq};

verus! {

/// The fields of one `streams[]` entry of the report that are read; a field
/// that is absent or of another JSON type is `None`.
pub struct FfprobeStream {
    pub codec_type: Option<String>,
    pub codec_name: Option<String>,
    pub width: Option<u64>,
    pub height: Option<u64>,
    pub r_frame_rate: Option<String>,
    pub bit_rate: Option<String>,
}

/// The parts of the report that are read: its streams (none when `streams`
/// is not an array) and `format.bit_rate`.
pub struct FfprobeReport {
    pub streams: Vec<FfprobeStream>,
    pub format_bit_rate: Option<String>,
}

/// What an `FfprobeStream` holds, its texts as character sequences.
pub struct FfprobeStreamView {
    pub codec_type: Option<Seq<char>>,
    pub codec_name: Option<Seq<char>>,
    pub width: Option<u64>,
    pub height: Option<u64>,
    pub r_frame_rate: Option<Seq<char>>,
    pub bit_rate: Option<Seq<char>>,
}

/// What an `FfprobeReport` holds.
pub struct FfprobeReportView {
    pub streams: Seq<FfprobeStreamView>,
    pub format_bit_rate: Option<Seq<char>>,
}

impl DeepView for FfprobeStream {
    type V = FfprobeStreamView;

    open spec fn deep_view(&self) -> FfprobeStreamView {
        FfprobeStreamView {
            codec_type: self.codec_type.deep_view(),
            codec_name: self.codec_name.deep_view(),
            width: self.width,
            height: self.height,
            r_frame_rate: self.r_frame_rate.deep_view(),
            bit_rate: self.bit_rate.deep_view(),
        }
    }
}

impl DeepView for FfprobeReport {
    type V = FfprobeReportView;

    open spec fn deep_view(&self) -> FfprobeReportView {
        FfprobeReportView {
            streams: self.streams.deep_view(),
            format_bit_rate: self.format_bit_rate.deep_view(),
        }
    }
}

/// What a report's bytes hold, as serde_json reads them; `None` when they
/// are not JSON.
pub uninterp spec fn ffprobe_report(stdout: Seq<u8>) -> Option<FfprobeReportView>;

/// `serde_json::from_slice::<serde_json::Value>` on ffprobe's output, then
/// the fields above picked out of the value (`value[key]` reads as JSON
/// `null` when the key is absent or the value is not an object). The result
/// depends on the bytes alone and is named `ffprobe_report`; an error means
/// that name is `None`.
#[verifier::external_body]
fn read_ffprobe_json(stdout: &[u8]) -> (r: Result<FfprobeReport, serde_json::Error>)
    ensures
        match r {
            Ok(rep) => ffprobe_report(stdout@) == Some(rep.deep_view()),
            Err(_) => ffprobe_report(stdout@) is None,
        },
{
    let v: serde_json::Value = serde_json::from_slice(stdout)?;
    let t = |s: &serde_json::Value, k: &str| s[k].as_str().map(String::from);
    let n = |s: &serde_json::Value, k: &str| s[k].as_u64();
    let streams = v["streams"].as_array().map_or(Vec::new(), |a| a.iter().map(|s| FfprobeStream {
        codec_type: t(s, "codec_type"), codec_name: t(s, "codec_name"), width: n(s, "width"),
        height: n(s, "height"), r_frame_rate: t(s, "r_frame_rate"), bit_rate: t(s, "bit_rate"),
    }).collect());
    Ok(FfprobeReport { streams, format_bit_rate: t(&v["format"], "bit_rate") })
}

/// A video's technical metadata as ffprobe reports it. `frame_rate` is the
/// `r_frame_rate` text (such as `30000/1001`), left for the caller to turn
/// into a number.
pub struct ProbedMetadata {
    pub width: Option<u32>,
    pub height: Option<u32>,
    pub video_codec: Option<String>,
    pub audio_codec: Option<String>,
    pub bitrate: Option<i64>,
    pub frame_rate: Option<String>,
}

/// What a `ProbedMetadata` holds, the bitrate as an integer.
pub struct ProbedMetadataView {
    pub width: Option<u32>,
    pub height: Option<u32>,
    pub video_codec: Option<Seq<char>>,
    pub audio_codec: Option<Seq<char>>,
    pub bitrate: Option<int>,
    pub frame_rate: Option<Seq<char>>,
}

impl DeepView for ProbedMetadata {
    type V = ProbedMetadataView;

    open spec fn deep_view(&self) -> ProbedMetadataView {
        ProbedMetadataView {
            width: self.width,
            height: self.height,
            video_codec: self.video_codec.deep_view(),
            audio_codec: self.audio_codec.deep_view(),
            bitrate: match self.bitrate {
                Some(b) => Some(b as int),
                None => None,
            },
            frame_rate: self.frame_rate.deep_view(),
        }
    }
}

/// `video`
pub open spec fn video_type() -> Seq<char> {
    seq!['v', 'i', 'd', 'e', 'o']
}

/// `audio`
pub open spec fn audio_type() -> Seq<char> {
    seq!['a', 'u', 'd', 'i', 'o']
}

/// The first stream whose `codec_type` is `kind`.
pub open spec fn first_of_type(streams: Seq<FfprobeStreamView>, kind: Seq<char>) -> Option<
    FfprobeStreamView,
>
    decreases streams.len(),
{
    if streams.len() == 0 {
        None
    } else if streams[0].codec_type == Some(kind) {
        Some(streams[0])
    } else {
        first_of_type(streams.drop_first(), kind)
    }
}

/// A dimension as a `u32`: the reported `u64` cut to its low 32 bits.
pub open spec fn dimension(v: Option<u64>) -> Option<u32> {
    match v {
        Some(x) => Some(x as u32),
        None => None,
    }
}

/// A bitrate text read as `str::parse::<i64>`.
pub open spec fn bitrate_of(text: Option<Seq<char>>) -> Option<int> {
    match text {
        Some(t) => parse_i64(t),
        None => None,
    }
}

/// The metadata a report gives.
pub open spec fn metadata_of(r: FfprobeReportView) -> ProbedMetadataView {
    let video = first_of_type(r.streams, video_type());
    let audio = first_of_type(r.streams, audio_type());
    let stream_bitrate = match video {
        Some(s) => bitrate_of(s.bit_rate),
        None => None,
    };
    ProbedMetadataView {
        width: match video {
            Some(s) => dimension(s.width),
            None => None,
        },
        height: match video {
            Some(s) => dimension(s.height),
            None => None,
        },
        video_codec: match video {
            Some(s) => s.codec_name,
            None => None,
        },
        audio_codec: match audio {
            Some(s) => s.codec_name,
            None => None,
        },
        bitrate: if stream_bitrate is Some {
            stream_bitrate
        } else {
            bitrate_of(r.format_bit_rate)
        },
        frame_rate: match video {
            Some(s) => s.r_frame_rate,
            None => None,
        },
    }
}

fn copy_text(o: &Option<String>) -> (r: Option<String>)
    ensures
        r.deep_view() == o.deep_view(),
{
    match o {
        Some(s) => Some(s.clone()),
        None => None,
    }
}

fn text_is(o: &Option<String>, kind: &Vec<char>) -> (b: bool)
    ensures
        b == (o.deep_view() == Some(kind@)),
{
    match o {
        Some(s) => {
            let c = chars_of(s.as_str());
            vec_eq(&c, kind)
        },
        None => false,
    }
}

fn bitrate_text(o: &Option<String>) -> (r: Option<i64>)
    ensures
        match r {
            Some(b) => bitrate_of(o.deep_view()) == Some(b as int),
            None => bitrate_of(o.deep_view()) is None,
        },
{
    match o {
        Some(s) => {
            let c = chars_of(s.as_str());
            parse_i64_chars(&c)
        },
        None => None,
    }
}

/// Index of the first stream whose `codec_type` is `kind`.
fn first_index_of_type(streams: &Vec<FfprobeStream>, kind: &Vec<char>) -> (r: Option<usize>)
    ensures
        match r {
            Some(i) => i < streams.len() && first_of_type(streams.deep_view(), kind@) == Some(
                streams[i as int].deep_view(),
            ),
            None => first_of_type(streams.deep_view(), kind@) is None,
        },
{
    let ghost all = streams.deep_view();
    let mut i: usize = 0;
    assert(all.skip(0) =~= all);
    while i < streams.len()
        invariant
            i <= streams.len(),
            all == streams.deep_view(),
            all.len() == streams.len(),
            first_of_type(all, kind@) == first_of_type(all.skip(i as int), kind@),
        decreases streams.len() - i,
    {
        assert(all.skip(i as int)[0] == streams[i as int].deep_view());
        if text_is(&streams[i].codec_type, kind) {
            return Some(i);
        }
        assert(all.skip(i as int).drop_first() =~= all.skip(i + 1));
        i = i + 1;
    }
    assert(all.skip(i as int).len() == 0);
    None
}

/// The metadata a parsed report gives: size, codec and frame rate of the
/// first video stream, codec of the first audio stream, and the video
/// stream's bitrate or, failing that, the container's.
pub fn metadata_from_report(report: &FfprobeReport) -> (m: ProbedMetadata)
    ensures
        m.deep_view() == metadata_of(report.deep_view()),
{
    proof {
        reveal_strlit("video");
        reveal_strlit("audio");
    }
    let video_kind = chars_of("video");
    let audio_kind = chars_of("audio");
    assert(video_kind@ =~= video_type());
    assert(audio_kind@ =~= audio_type());
    let video = first_index_of_type(&report.streams, &video_kind);
    let audio = first_index_of_type(&report.streams, &audio_kind);
    let (width, height, video_codec, frame_rate, stream_bitrate) = match video {
        Some(i) => {
            let s = &report.streams[i];
            let w = match s.width {
                Some(x) => Some(x as u32),
                None => None,
            };
            let h = match s.height {
                Some(x) => Some(x as u32),
                None => None,
            };
            (w, h, copy_text(&s.codec_name), copy_text(&s.r_frame_rate), bitrate_text(&s.bit_rate))
        },
        None => (None, None, None, None, None),
    };
    let audio_codec = match audio {
        Some(i) => copy_text(&report.streams[i].codec_name),
        None => None,
    };
    let bitrate = match stream_bitrate {
        Some(b) => Some(b),
        None => bitrate_text(&report.format_bit_rate),
    };
    ProbedMetadata { width, height, video_codec, audio_codec, bitrate, frame_rate }
}

/// Why a report could not be read.
#[derive(Debug)]
pub enum ProbeError {
    /// The output is not JSON; serde_json's error says where.
    InvalidJson(serde_json::Error),
}

/// Reads ffprobe's JSON output and gives the metadata it reports; an error
/// exactly when the bytes are not JSON.
pub fn probed_metadata(stdout: &[u8]) -> (r: Result<ProbedMetadata, ProbeError>)
    ensures
        match r {
            Ok(m) => ffprobe_report(stdout@) matches Some(rep) && m.deep_view() == metadata_of(rep),
            Err(_) => ffprobe_report(stdout@) is None,
        },
{
    match read_ffprobe_json(stdout) {
        Ok(report) => Ok(metadata_from_report(&report)),
        Err(e) => Err(ProbeError::InvalidJson(e)),
    }
}

} // verus!
