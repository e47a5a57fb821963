//! Mirrors and the capability adapter for video encoders.

use vstd::prelude::*;
use crate::heap::{address_range, NativeHeap, NULL};
use crate::text::{has_interior_nul, is_valid_text, place_text, text_block, ProjectionError};

verus! {

/// The kind of an encoded frame.
#[derive(Clone, Copy, Debug, PartialEq, Eq, Structural)]
pub enum VideoFrameType {
    EmptyFrame,
    VideoFrameKey,
    VideoFrameDelta,
}

impl VideoFrameType {
    /// The code of the frame type in the native layout. The packer on the
    /// native side depends on these values.
    pub open spec fn spec_code(self) -> i32 {
        match self {
            VideoFrameType::EmptyFrame => 0,
            VideoFrameType::VideoFrameKey => 3,
            VideoFrameType::VideoFrameDelta => 4,
        }
    }

    /// The code of the frame type in the native layout.
    pub fn code(self) -> (code: i32)
        ensures
            code == self.spec_code(),
    {
        match self {
            VideoFrameType::EmptyFrame => 0,
            VideoFrameType::VideoFrameKey => 3,
            VideoFrameType::VideoFrameDelta => 4,
        }
    }

    /// The frame type with the given code, if there is one.
    pub fn from_code(code: i32) -> (kind: Option<VideoFrameType>)
        ensures
            kind is Some <==> code == 0 || code == 3 || code == 4,
            kind is Some ==> kind.unwrap().spec_code() == code,
    {
        if code == 0 {
            Some(VideoFrameType::EmptyFrame)
        } else if code == 3 {
            Some(VideoFrameType::VideoFrameKey)
        } else if code == 4 {
            Some(VideoFrameType::VideoFrameDelta)
        } else {
            None
        }
    }
}

/// The flat mirror of a key/value parameter. Both addresses are non-null from
/// the projection until the release.
#[derive(Clone, Copy, Debug, PartialEq, Eq, Structural)]
pub struct RawParameter {
    pub key: usize,
    pub value: usize,
}

impl RawParameter {
    /// The addresses that the mirror answers for.
    pub open spec fn owned_blocks(self) -> Set<usize> {
        Set::new(|a: usize| a != NULL && (a == self.key || a == self.value))
    }

    /// Projects a pair of texts: the key at the next address, the value behind
    /// it. Nothing is allocated unless both can be.
    pub fn from_pair(heap: &mut NativeHeap, key: &str, value: &str) -> (r: Result<
        RawParameter,
        ProjectionError,
    >)
        requires
            old(heap).wf(),
        ensures
            final(heap).wf(),
            final(heap).limit() == old(heap).limit(),
            r is Ok <==> is_valid_text(key@) && is_valid_text(value@) && old(heap).room() >= 2,
            r == Err::<RawParameter, ProjectionError>(ProjectionError::InvalidText) <==> !(
            is_valid_text(key@) && is_valid_text(value@)),
            r is Err ==> final(heap).same_as(old(heap)),
            r is Ok ==> {
                &&& r.unwrap().key == old(heap).next()
                &&& r.unwrap().value == old(heap).next() + 1
                &&& r.unwrap().key != NULL
                &&& r.unwrap().value != NULL
                &&& final(heap).next() == old(heap).next() + 2
                &&& old(heap).grown_to(final(heap))
                &&& final(heap)@ == old(heap)@.insert(r.unwrap().key, text_block(key@)).insert(
                    r.unwrap().value,
                    text_block(value@),
                )
                &&& r.unwrap().owned_blocks() =~= address_range(
                    old(heap).next(),
                    final(heap).next(),
                )
            },
    {
        if has_interior_nul(key) || has_interior_nul(value) {
            return Err(ProjectionError::InvalidText);
        }
        if heap.remaining() < 2 {
            return Err(ProjectionError::AllocationFailure);
        }
        let ghost before = *heap;
        proof {
            before.lemma_live_range();
        }
        let key_address = place_text(heap, key);
        let ghost mid = *heap;
        proof {
            mid.lemma_live_range();
        }
        let value_address = place_text(heap, value);
        proof {
            heap.lemma_live_range();
            before.lemma_grown_trans(&mid, heap);
        }
        Ok(RawParameter { key: key_address, value: value_address })
    }

    /// Releases the key and the value, each if it is live, and returns the
    /// number of blocks released. Both addresses are cleared right after the
    /// release, so a second release finds nothing to release.
    pub fn release(&mut self, heap: &mut NativeHeap) -> (count: usize)
        requires
            old(heap).wf(),
        ensures
            final(heap).wf(),
            final(heap).limit() == old(heap).limit(),
            final(heap).next() == old(heap).next(),
            final(heap)@ == old(heap)@.remove_keys(old(self).owned_blocks()),
            count == old(heap).live() - final(heap).live(),
            final(self).key == NULL,
            final(self).value == NULL,
    {
        proof {
            heap.lemma_live_range();
            heap.lemma_finite();
        }
        let key: usize = if heap.free(self.key) {
            1
        } else {
            0
        };
        proof {
            heap.lemma_finite();
        }
        let value: usize = if heap.free(self.value) {
            1
        } else {
            0
        };
        assert(heap@ =~= old(heap)@.remove_keys(old(self).owned_blocks()));
        self.key = NULL;
        self.value = NULL;
        key + value
    }
}

/// The flat mirror of the codec settings. Field order and widths are those of
/// the native layout.
#[derive(Clone, Copy, Debug, PartialEq, Eq, Structural)]
pub struct RawCodecSettings {
    pub width: u16,
    pub height: u16,
    /// Kilobits per second.
    pub start_bitrate: u32,
    /// Kilobits per second.
    pub max_bitrate: u32,
    /// Kilobits per second.
    pub min_bitrate: u32,
    pub max_framerate: u32,
    /// Whether anything is encoded and sent when there is one stream only.
    pub active: bool,
    pub qp_max: u32,
    pub number_of_simulcast_streams: u8,
    pub expect_encode_from_texture: bool,
    pub legacy_conference_mode: bool,
    pub loss_notification: bool,
    pub number_of_cores: i32,
    pub max_payload_size: usize,
}

/// One frame of video, as the bytes of its image.
#[derive(Debug)]
pub struct VideoFrame {
    pub data: Vec<u8>,
}

/// The handle through which an encoder hands its output back.
#[derive(Debug)]
pub struct VideoEncoderAdapter {}

/// What an encoder has to be able to do.
pub trait VideoEncoderExt: Send {
    /// Initializes the encoder with the codec settings.
    fn init(&mut self, settings: ());

    /// Sets the rate control parameters, which apply until the next call.
    fn set_rates(&mut self, parameters: ());

    /// Encodes one frame; the encoded image goes back through the adapter.
    fn encode(&mut self, adapter: &mut VideoEncoderAdapter, frame: &VideoFrame, types: &[VideoFrameType]);
}

/// An encoder behind one owned indirection, whatever its concrete type.
pub struct VideoEncoder {
    ext: Box<dyn VideoEncoderExt>,
}

impl VideoEncoder {
    /// The behaviour that the encoder owns is `ext`: its one slot holds `ext`
    /// in a box, seen through the capability set alone.
    pub closed spec fn wraps<T>(&self, ext: T) -> bool where T: VideoEncoderExt + 'static {
        let boxed: Box<dyn VideoEncoderExt> = Box::new(ext);
        self.ext == boxed
    }

    /// Wraps `ext`: the encoder that comes back owns `ext`, boxed, and nothing
    /// else. Neither the name nor the parameters are kept.
    pub fn new<T>(name: &str, pars: &[(&str, &str)], ext: T) -> (encoder: VideoEncoder) where
        T: VideoEncoderExt + 'static,
        ensures
            encoder.wraps(ext),
    {
        VideoEncoder { ext: Box::new(ext) }
    }
}

/// A factory of encoders on the native side, by its address.
#[derive(Debug)]
pub struct VideoEncoderFactory {
    address: usize,
}

} // verus!
