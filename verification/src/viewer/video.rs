//! What the decoding of the video does with what it is given.
//!
//! The parameter sets arrive reliably; they set the decoder up, and later ones reset it to a
//! new picture size. Pictures arrive whole or not at all.
use super::decoder::{
    avcc_to_annexb, begins_stream, holds_plane, is_annexb, plane, stream_of, DecodedFrame,
};
use super::yuv::{byte_at, covered, render_yuv420_to_rgba};
use crate::proto::codec::{AssembledMedia, Media};
use crate::text::cat2;
use vstd::prelude::*;

verus! {

/// A picture of more bytes is not decoded.
pub const MAX_FRAME_SIZE: usize = 52_428_800;

/// What decoding hands to the window.
#[derive(Debug, Clone)]
pub enum VideoEvent {
    /// A picture, four bytes per pixel.
    Frame { width: usize, height: usize, rgba: Vec<u8> },
    Error(String),
    Closed,
}

/// What decoding is given.
#[derive(Debug, Clone)]
pub enum VideoInput {
    /// Parameter sets.
    Config(Vec<u8>),
    /// An encoded picture.
    Frame(AssembledMedia),
}

#[verifier::ext_equal]
pub enum InputView {
    Config(Seq<u8>),
    Frame(Media),
}

impl View for VideoInput {
    type V = InputView;

    open spec fn view(&self) -> InputView {
        match self {
            VideoInput::Config(c) => InputView::Config(c@),
            VideoInput::Frame(f) => InputView::Frame(f@),
        }
    }
}

/// What to do with the decoder.
#[derive(Debug, Clone)]
pub enum Job {
    /// Nothing.
    Skip,
    /// Give it the parameter sets, then open it. Where that fails, decoding ends.
    SetUp { extradata: Vec<u8> },
    /// Make it anew with other parameter sets and open it. Where that fails, decoding ends.
    Reset { extradata: Vec<u8> },
    /// Open it first where `open` holds; decode the picture. Where either fails, decoding
    /// ends.
    Decode { open: bool, data: Vec<u8>, pts: i64, keyframe: bool },
    /// Report what is wrong; decoding ends.
    Fail(String),
}

#[verifier::ext_equal]
pub enum JobView {
    Skip,
    SetUp { extradata: Seq<u8> },
    Reset { extradata: Seq<u8> },
    Decode { open: bool, data: Seq<u8>, pts: i64, keyframe: bool },
    Fail(Seq<char>),
}

impl View for Job {
    type V = JobView;

    open spec fn view(&self) -> JobView {
        match self {
            Job::Skip => JobView::Skip,
            Job::SetUp { extradata } => JobView::SetUp { extradata: extradata@ },
            Job::Reset { extradata } => JobView::Reset { extradata: extradata@ },
            Job::Decode { open, data, pts, keyframe } => JobView::Decode {
                open: *open,
                data: data@,
                pts: *pts,
                keyframe: *keyframe,
            },
            Job::Fail(e) => JobView::Fail(e@),
        }
    }
}

/// The parameter sets `config` as a byte stream; `None` where they are in neither form.
pub open spec fn as_stream(config: Seq<u8>) -> Option<Seq<u8>> {
    if begins_stream(config) {
        Some(config)
    } else {
        stream_of(config)
    }
}

/// What is done with parameter sets.
pub open spec fn config_job(open: bool, config: Seq<u8>) -> JobView {
    match as_stream(config) {
        None => JobView::Fail("config 帧既不是 Annex-B 也无法解析为 avcC"@),
        Some(extradata) => if open {
            JobView::Reset { extradata }
        } else {
            JobView::SetUp { extradata }
        },
    }
}

/// What is done with `input`; `open` is whether the decoder is open. A picture that is empty
/// or too large is skipped. Parameter sets among the pictures are treated like those that
/// come on their own.
pub open spec fn job_of(open: bool, input: InputView) -> JobView {
    match input {
        InputView::Config(config) => config_job(open, config),
        InputView::Frame(f) => if f.data.len() == 0 || f.data.len() > MAX_FRAME_SIZE {
            JobView::Skip
        } else if f.flags % 2 == 1 {
            config_job(open, f.data)
        } else {
            JobView::Decode {
                open: !open,
                data: f.data,
                pts: f.pts as i64,
                keyframe: f.flags / 2 % 2 == 1,
            }
        },
    }
}

/// Where the work with the decoder can fail.
#[derive(Debug, Clone, Copy, PartialEq, Eq, Structural)]
pub enum Stage {
    Extradata,
    Open,
    Reset,
    Decode,
}

/// What a failure at `stage` is called.
pub open spec fn stage_text(stage: Stage) -> Seq<char> {
    match stage {
        Stage::Extradata => "设置 extradata 失败: "@,
        Stage::Open => "打开解码器失败: "@,
        Stage::Reset => "重置解码器失败: "@,
        Stage::Decode => "解码失败: "@,
    }
}

/// What the window is told where the decoder fails with `e` at `stage`.
pub fn failure(stage: Stage, e: &str) -> (r: VideoEvent)
    ensures
        r matches VideoEvent::Error(t) && t@ == stage_text(stage) + e@,
{
    match stage {
        Stage::Extradata => VideoEvent::Error(cat2("设置 extradata 失败: ", e)),
        Stage::Open => VideoEvent::Error(cat2("打开解码器失败: ", e)),
        Stage::Reset => VideoEvent::Error(cat2("重置解码器失败: ", e)),
        Stage::Decode => VideoEvent::Error(cat2("解码失败: ", e)),
    }
}

/// What to do with parameter sets.
fn on_config(open: bool, config: Vec<u8>) -> (r: Job)
    ensures
        r@ == config_job(open, config@),
{
    let extradata = if is_annexb(config.as_slice()) {
        config
    } else {
        match avcc_to_annexb(config.as_slice()) {
            Some(e) => e,
            None => {
                return Job::Fail("config 帧既不是 Annex-B 也无法解析为 avcC".to_owned());
            },
        }
    };
    if open {
        Job::Reset { extradata }
    } else {
        Job::SetUp { extradata }
    }
}

/// What to do with `input`; `open` is whether the decoder is open.
pub fn next_job(open: bool, input: VideoInput) -> (r: Job)
    ensures
        r@ == job_of(open, input@),
{
    match input {
        VideoInput::Config(config) => on_config(open, config),
        VideoInput::Frame(f) => {
            let len: usize = f.data.len();
            if len == 0 || len > MAX_FRAME_SIZE {
                return Job::Skip;
            }
            let flags: u32 = f.flags;
            assert(flags & 1 == flags % 2) by (bit_vector);
            assert((flags >> 1) & 1 == flags / 2 % 2) by (bit_vector);
            if flags & 1 != 0 {
                on_config(open, f.data)
            } else {
                Job::Decode {
                    open: !open,
                    data: f.data,
                    pts: f.pts as i64,
                    keyframe: (flags >> 1) & 1 != 0,
                }
            }
        },
    }
}

impl DecodedFrame {
    pub open spec fn size(self) -> (int, int) {
        (self.width as int, self.height as int)
    }

    /// The planes hold what is drawn of them, and the numbers fit into the machine's.
    pub open spec fn drawable(self) -> bool {
        self.width > 0 && self.height > 0 ==> {
            &&& covered(self.y@.len(), self.u@.len(), self.v@.len(), self.size(), self.size())
            &&& self.width * self.height * 4 <= usize::MAX
            &&& (self.width - 1) * self.width <= usize::MAX
            &&& (self.height - 1) * self.height <= usize::MAX
        }
    }
}

/// The picture, four bytes per pixel, at its own size; `None` where it is empty.
pub fn to_rgba(d: &DecodedFrame) -> (r: Option<Vec<u8>>)
    requires
        d.drawable(),
    ensures
        match r {
            Some(p) => {
                &&& d.width > 0 && d.height > 0
                &&& p@.len() == d.width * d.height * 4
                &&& forall|i: int|
                    0 <= i < p@.len() ==> #[trigger] p@[i] == byte_at(
                        i,
                        d.y@,
                        d.u@,
                        d.v@,
                        d.size(),
                        d.size(),
                    )
            },
            None => d.width == 0 || d.height == 0,
        },
{
    let w: usize = d.width;
    let h: usize = d.height;
    if w == 0 || h == 0 {
        return None;
    }
    assert(w * h * 4 <= usize::MAX);
    assert(0 < w * h) by (nonlinear_arith)
        requires
            w > 0,
            h > 0,
    ;
    let mut rgba: Vec<u8> = vec![0u8; w * h * 4];
    render_yuv420_to_rgba(
        rgba.as_mut_slice(),
        w,
        h,
        d.y.as_slice(),
        d.u.as_slice(),
        d.v.as_slice(),
        w,
        h,
    );
    Some(rgba)
}

/// A copied plane has as many bytes as it has lines and columns.
proof fn lemma_plane_len(src: Seq<u8>, stride: nat, w: nat, h: nat)
    requires
        holds_plane(src.len(), stride, w, h),
        w > 0,
    ensures
        plane(src, stride, w, h).len() == w * h,
    decreases h,
{
    if h > 0 {
        let k = (h - 1) as nat;
        if k > 0 {
            assert((k - 1) * stride <= (h - 1) * stride) by (nonlinear_arith)
                requires
                    k == h - 1,
            ;
        }
        lemma_plane_len(src, stride, w, k);
        assert(0 <= (h - 1) * stride) by (nonlinear_arith)
            requires
                h > 0,
        ;
        assert(w * h == w * k + w) by (nonlinear_arith)
            requires
                k == h - 1,
                h > 0,
        ;
    } else {
        assert(w * h == 0) by (nonlinear_arith)
            requires
                h == 0,
        ;
    }
}

/// The planes that are copied out of a decoded picture of even width and height hold all
/// that is drawn of them.
pub proof fn law_even_picture_is_covered(
    y: Seq<u8>,
    u: Seq<u8>,
    v: Seq<u8>,
    stride: nat,
    uv_stride: nat,
    w: nat,
    h: nat,
)
    requires
        w > 0 && h > 0 && w % 2 == 0 && h % 2 == 0,
        holds_plane(y.len(), stride, w, h),
        holds_plane(u.len(), uv_stride, w / 2, h / 2),
        holds_plane(v.len(), uv_stride, w / 2, h / 2),
    ensures
        covered(
            plane(y, stride, w, h).len(),
            plane(u, uv_stride, w / 2, h / 2).len(),
            plane(v, uv_stride, w / 2, h / 2).len(),
            (w as int, h as int),
            (w as int, h as int),
        ),
{
    lemma_plane_len(y, stride, w, h);
    lemma_plane_len(u, uv_stride, w / 2, h / 2);
    lemma_plane_len(v, uv_stride, w / 2, h / 2);
    super::yuv::law_own_size_keeps_pixels(h - 1, w - 1, (w as int, h as int));
    assert((h - 1) * w + (w - 1) < w * h) by (nonlinear_arith)
        requires
            w > 0,
    ;
    let a = w as int / 2;
    let b = h as int / 2;
    assert((h - 1) / 2 == b - 1);
    assert((w - 1) / 2 == a - 1);
    assert((b - 1) * a + (a - 1) < a * b) by (nonlinear_arith)
        requires
            a > 0,
    ;
}

} // verus!
