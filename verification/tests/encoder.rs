use batrachia::heap::NativeHeap;
use batrachia::text::{read_string, ProjectionError};
use batrachia::video_encoder::{
    RawCodecSettings, RawParameter, VideoEncoder, VideoEncoderAdapter, VideoEncoderExt,
    VideoFrame, VideoFrameType,
};

struct Counting {
    frames: usize,
}

impl VideoEncoderExt for Counting {
    fn init(&mut self, _settings: ()) {
        self.frames = 0;
    }

    fn set_rates(&mut self, _parameters: ()) {}

    fn encode(
        &mut self,
        _adapter: &mut VideoEncoderAdapter,
        _frame: &VideoFrame,
        _types: &[VideoFrameType],
    ) {
        self.frames += 1;
    }
}

#[test]
fn frame_type_codes() {
    assert_eq!(VideoFrameType::EmptyFrame.code(), 0);
    assert_eq!(VideoFrameType::VideoFrameKey.code(), 3);
    assert_eq!(VideoFrameType::VideoFrameDelta.code(), 4);
    assert_eq!(VideoFrameType::from_code(3), Some(VideoFrameType::VideoFrameKey));
    assert_eq!(VideoFrameType::from_code(1), None);
    assert_eq!(VideoFrameType::from_code(2), None);
}

#[test]
fn parameter_projects_key_then_value() {
    let mut heap = NativeHeap::new();
    let mut raw = RawParameter::from_pair(&mut heap, "profile", "high").unwrap();
    assert_eq!(raw, RawParameter { key: 1, value: 2 });
    assert_eq!(read_string(&heap, raw.key), Some(String::from("profile")));
    assert_eq!(read_string(&heap, raw.value), Some(String::from("high")));
    assert_eq!(raw.release(&mut heap), 2);
    assert_eq!(heap.live_blocks(), 0);
    assert_eq!(raw, RawParameter { key: 0, value: 0 });
    assert_eq!(raw.release(&mut heap), 0);
    assert_eq!(heap.live_blocks(), 0);
}

#[test]
fn parameter_is_all_or_nothing() {
    let mut heap = NativeHeap::with_limit(1);
    assert_eq!(
        RawParameter::from_pair(&mut heap, "k", "v"),
        Err(ProjectionError::AllocationFailure)
    );
    assert_eq!(heap.allocated(), 0);
    assert_eq!(
        RawParameter::from_pair(&mut heap, "k", "v\0"),
        Err(ProjectionError::InvalidText)
    );
    assert_eq!(heap.allocated(), 0);
}

#[test]
fn codec_settings_hold_their_fields() {
    let settings = RawCodecSettings {
        width: 640,
        height: 480,
        start_bitrate: 300,
        max_bitrate: 1000,
        min_bitrate: 100,
        max_framerate: 30,
        active: true,
        qp_max: 56,
        number_of_simulcast_streams: 1,
        expect_encode_from_texture: false,
        legacy_conference_mode: false,
        loss_notification: false,
        number_of_cores: 4,
        max_payload_size: 1200,
    };
    let copy = settings;
    assert_eq!(copy, settings);
    assert_eq!(copy.width, 640);
    assert_eq!(copy.max_payload_size, 1200);
}

#[test]
fn encoder_wraps_any_behaviour() {
    let _encoder = VideoEncoder::new("vp8", &[("profile", "0")], Counting { frames: 0 });
    let mut direct = Counting { frames: 5 };
    direct.init(());
    direct.set_rates(());
    let mut adapter = VideoEncoderAdapter {};
    direct.encode(&mut adapter, &VideoFrame { data: vec![1, 2, 3] }, &[VideoFrameType::VideoFrameKey]);
    assert_eq!(direct.frames, 1);
}
