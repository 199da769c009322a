use graybrowser::probe::{
    metadata_from_report, probed_metadata, FfprobeReport, FfprobeStream, ProbeError,
};

fn stream(kind: &str, codec: &str) -> FfprobeStream {
    FfprobeStream {
        codec_type: Some(kind.to_string()),
        codec_name: Some(codec.to_string()),
        width: None,
        height: None,
        r_frame_rate: None,
        bit_rate: None,
    }
}

#[test]
fn reads_the_first_video_and_audio_streams() {
    let out = br#"{"streams":[
        {"codec_type":"audio","codec_name":"aac","bit_rate":"128000"},
        {"codec_type":"video","codec_name":"h264","width":1920,"height":1080,
         "r_frame_rate":"30000/1001","bit_rate":"5000000"},
        {"codec_type":"video","codec_name":"mjpeg","width":320,"height":240}
    ],"format":{"bit_rate":"5200000"}}"#;
    let m = probed_metadata(out).unwrap();
    assert_eq!(m.width, Some(1920));
    assert_eq!(m.height, Some(1080));
    assert_eq!(m.video_codec.as_deref(), Some("h264"));
    assert_eq!(m.audio_codec.as_deref(), Some("aac"));
    assert_eq!(m.bitrate, Some(5_000_000));
    assert_eq!(m.frame_rate.as_deref(), Some("30000/1001"));
}

#[test]
fn falls_back_to_the_container_bitrate() {
    let missing = br#"{"streams":[{"codec_type":"video","codec_name":"vp9"}],
        "format":{"bit_rate":"777"}}"#;
    assert_eq!(probed_metadata(missing).unwrap().bitrate, Some(777));
    let unreadable = br#"{"streams":[{"codec_type":"video","bit_rate":"N/A"}],
        "format":{"bit_rate":"-12"}}"#;
    assert_eq!(probed_metadata(unreadable).unwrap().bitrate, Some(-12));
    let neither = br#"{"streams":[{"codec_type":"video","bit_rate":"1.5"}],
        "format":{"bit_rate":"9223372036854775808"}}"#;
    assert_eq!(probed_metadata(neither).unwrap().bitrate, None);
}

#[test]
fn without_a_video_stream_only_audio_and_container_fields_remain() {
    let out = br#"{"streams":[{"codec_type":"audio","codec_name":"opus","bit_rate":"96000"}],
        "format":{"bit_rate":"100000"}}"#;
    let m = probed_metadata(out).unwrap();
    assert_eq!(m.width, None);
    assert_eq!(m.height, None);
    assert_eq!(m.video_codec, None);
    assert_eq!(m.frame_rate, None);
    assert_eq!(m.audio_codec.as_deref(), Some("opus"));
    assert_eq!(m.bitrate, Some(100_000));
}

#[test]
fn dimensions_are_cut_to_32_bits_and_must_be_unsigned_integers() {
    let out = br#"{"streams":[{"codec_type":"video","width":4294967297,"height":"1080"}]}"#;
    let m = probed_metadata(out).unwrap();
    assert_eq!(m.width, Some(1));
    assert_eq!(m.height, None);
    assert_eq!(m.bitrate, None);
}

#[test]
fn odd_shapes_read_as_absent_fields() {
    let m = probed_metadata(br#"{"streams":{"codec_type":"video"},"format":7}"#).unwrap();
    assert_eq!(m.width, None);
    assert_eq!(m.video_codec, None);
    assert_eq!(m.bitrate, None);
    let m = probed_metadata(b"[1,2]").unwrap();
    assert_eq!(m.audio_codec, None);
    let m = probed_metadata(br#"{"streams":[5,{"codec_type":"video","codec_name":"av1"}]}"#).unwrap();
    assert_eq!(m.video_codec.as_deref(), Some("av1"));
}

#[test]
fn output_that_is_not_json_is_an_error() {
    assert!(matches!(probed_metadata(b"not json"), Err(ProbeError::InvalidJson(_))));
    assert!(matches!(probed_metadata(b""), Err(ProbeError::InvalidJson(_))));
}

#[test]
fn metadata_from_a_report_built_by_hand() {
    let mut video = stream("video", "hevc");
    video.width = Some(3840);
    video.height = Some(2160);
    video.r_frame_rate = Some("60/1".to_string());
    let report = FfprobeReport {
        streams: vec![stream("subtitle", "srt"), video, stream("audio", "flac"), stream("audio", "aac")],
        format_bit_rate: Some("+42".to_string()),
    };
    let m = metadata_from_report(&report);
    assert_eq!(m.width, Some(3840));
    assert_eq!(m.height, Some(2160));
    assert_eq!(m.video_codec.as_deref(), Some("hevc"));
    assert_eq!(m.audio_codec.as_deref(), Some("flac"));
    assert_eq!(m.frame_rate.as_deref(), Some("60/1"));
    assert_eq!(m.bitrate, Some(42));
}
