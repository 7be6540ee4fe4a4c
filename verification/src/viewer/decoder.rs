//! What comes before and after the video decoder: its codec, its parameter sets, and the
//! planes of a decoded picture.
use crate::text::{cat2, hex_digit, signed, signed_text};
use crate::wire::{be_value, push_bytes, read_be};
use vstd::prelude::*;

verus! {

/// How pictures can be encoded.
#[derive(Debug, Clone, Copy, PartialEq, Eq, Structural)]
pub enum VideoCodec {
    H264,
    H265,
    Av1,
}

/// A decoded picture: three planes, line after line, without padding. The chroma planes
/// have half the width and height.
#[derive(Debug, Clone, PartialEq, Eq)]
pub struct DecodedFrame {
    pub y: Vec<u8>,
    pub u: Vec<u8>,
    pub v: Vec<u8>,
    pub width: usize,
    pub height: usize,
}

/// The hexadecimal digits of `n`, without leading zeros.
pub open spec fn short_hex(n: nat) -> Seq<char>
    decreases n,
{
    if n < 16 {
        seq![hex_digit(n)]
    } else {
        short_hex(n / 16).push(hex_digit(n % 16))
    }
}

/// The hexadecimal digits of `n`, without leading zeros.
fn short_hex_text(n: u32) -> (r: String)
    ensures
        r@ == short_hex(n as nat),
    decreases n,
{
    let d: u8 = (n % 16) as u8;
    let c: char = if d < 10 {
        (48 + d) as char
    } else {
        (97 + (d - 10)) as char
    };
    if n < 16 {
        let mut r = String::new();
        r.push(c);
        assert(r@ =~= short_hex(n as nat));
        r
    } else {
        let mut r = short_hex_text(n / 16);
        r.push(c);
        r
    }
}

/// The codec of the four characters `codec_id`: `h264`, `h265`, or `av1` after a zero.
pub open spec fn codec_of(codec_id: u32) -> Option<VideoCodec> {
    if codec_id == 0x6832_3634 {
        Some(VideoCodec::H264)
    } else if codec_id == 0x6832_3635 {
        Some(VideoCodec::H265)
    } else if codec_id == 0x0061_7631 {
        Some(VideoCodec::Av1)
    } else {
        None
    }
}

/// The codec that the phone announces as `codec_id`.
pub fn video_codec(codec_id: u32) -> (r: Result<VideoCodec, String>)
    ensures
        match r {
            Ok(c) => codec_of(codec_id) == Some(c),
            Err(e) => codec_of(codec_id) is None && e@ == "不支持的 codec id: 0x"@ + short_hex(
                codec_id as nat,
            ),
        },
{
    if codec_id == 0x6832_3634 {
        Ok(VideoCodec::H264)
    } else if codec_id == 0x6832_3635 {
        Ok(VideoCodec::H265)
    } else if codec_id == 0x0061_7631 {
        Ok(VideoCodec::Av1)
    } else {
        Err(cat2("不支持的 codec id: 0x", short_hex_text(codec_id).as_str()))
    }
}

/// What a unit begins with in a byte stream.
pub open spec fn start_code() -> Seq<u8> {
    seq![0, 0, 0, 1]
}

/// Whether `data` begins with a start code, as a byte stream does.
pub open spec fn begins_stream(data: Seq<u8>) -> bool {
    data.len() >= 4 && data.take(4) == start_code()
}

/// Whether `data` begins with a start code, as a byte stream does.
pub fn is_annexb(data: &[u8]) -> (r: bool)
    ensures
        r == begins_stream(data@),
{
    let r = data.len() >= 4 && data[0] == 0 && data[1] == 0 && data[2] == 0 && data[3] == 1;
    proof {
        if r {
            assert(data@.take(4) =~= start_code());
        } else if data@.len() >= 4 && data@.take(4) == start_code() {
            assert(data@[0] == data@.take(4)[0]);
            assert(data@[1] == data@.take(4)[1]);
            assert(data@[2] == data@.take(4)[2]);
            assert(data@[3] == data@.take(4)[3]);
        }
    }
    r
}

/// `n` units, each after its length in two bytes, the greater first: the same units, each
/// after a start code, and the rest of the bytes.
pub open spec fn units(data: Seq<u8>, n: nat) -> Option<(Seq<u8>, Seq<u8>)>
    decreases n,
{
    if n == 0 {
        Some((Seq::empty(), data))
    } else if data.len() < 2 {
        None
    } else {
        let len = be_value(data.take(2));
        if data.len() < 2 + len {
            None
        } else {
            match units(data.skip(2 + len as int), (n - 1) as nat) {
                Some((out, rest)) => Some(
                    (start_code() + data.subrange(2, 2 + len as int) + out, rest),
                ),
                None => None,
            }
        }
    }
}

/// The byte stream of the parameter sets in a configuration record: five bytes of profile,
/// the number of sequence sets in the low five bits of one byte, the sets, the number of
/// picture sets in one byte, the sets. `None` where the record ends too early.
pub open spec fn stream_of(data: Seq<u8>) -> Option<Seq<u8>> {
    if data.len() < 7 {
        None
    } else {
        match units(data.skip(6), (data[5] % 32) as nat) {
            Some((sps, rest)) => if rest.len() == 0 {
                None
            } else {
                match units(rest.skip(1), rest[0] as nat) {
                    Some((pps, _)) => Some(sps + pps),
                    None => None,
                }
            },
            None => None,
        }
    }
}

/// Appends `n` units from `at` on to `out`, and says where they end.
fn copy_units(data: &[u8], at: usize, n: usize, out: &mut Vec<u8>) -> (r: Option<usize>)
    requires
        at <= data@.len(),
    ensures
        match r {
            Some(end) => at <= end <= data@.len() && (units(data@.skip(at as int), n as nat)
                matches Some((units, rest)) && rest == data@.skip(end as int) && final(out)@
                == old(out)@ + units),
            None => units(data@.skip(at as int), n as nat) is None,
        },
{
    let ghost start = out@;
    let ghost all = units(data@.skip(at as int), n as nat);
    let mut pos: usize = at;
    let mut i: usize = 0;
    assert(data.len() == data@.len());
    assert(all matches Some((o, rest)) ==> out@ + o =~= start + o);
    while i < n
        invariant
            i <= n,
            at <= pos <= data@.len() <= usize::MAX,
            all == units(data@.skip(at as int), n as nat),
            match units(data@.skip(pos as int), (n - i) as nat) {
                Some((o, rest)) => all matches Some((a, b)) && b == rest && start + a == out@ + o,
                None => all is None,
            },
        decreases n - i,
    {
        let ghost here = data@.skip(pos as int);
        if data.len() - pos < 2 {
            return None;
        }
        proof {
            crate::wire::lemma_be_value_bound(data@.subrange(pos as int, pos + 2));
            crate::wire::lemma_pow256_values();
        }
        let len: usize = read_be(data, pos, 2) as usize;
        assert(data@.subrange(pos as int, pos + 2) =~= here.take(2));
        if data.len() - pos - 2 < len {
            return None;
        }
        let ghost before = out@;
        out.push(0);
        out.push(0);
        out.push(0);
        out.push(1);
        push_bytes(out, &data[pos + 2..pos + 2 + len]);
        proof {
            assert(here.skip(2 + len as int) =~= data@.skip(pos + 2 + len));
            assert(here.subrange(2, 2 + len as int) =~= data@.subrange(
                pos + 2,
                pos + 2 + len as int,
            ));
            let unit = start_code() + here.subrange(2, 2 + len as int);
            assert(out@ =~= before + unit);
            if let Some((o, rest)) = units(here.skip(2 + len as int), (n - i - 1) as nat) {
                assert(before + (unit + o) =~= out@ + o);
            }
        }
        pos = pos + 2 + len;
        i += 1;
    }
    proof {
        if let Some((a, b)) = all {
            assert(out@ + Seq::<u8>::empty() =~= out@);
        }
    }
    Some(pos)
}

/// Turns the parameter sets of a configuration record into a byte stream. The decoder must
/// be given them in this form, as the pictures come in it.
pub fn avcc_to_annexb(data: &[u8]) -> (r: Option<Vec<u8>>)
    ensures
        match r {
            Some(out) => stream_of(data@) == Some(out@),
            None => stream_of(data@) is None,
        },
{
    if data.len() < 7 {
        return None;
    }
    let mut out: Vec<u8> = Vec::new();
    let b: u8 = data[5];
    assert(b & 0x1F == b % 32) by (bit_vector);
    let num_sps: usize = (b & 0x1F) as usize;
    let pos: usize = match copy_units(data, 6, num_sps, &mut out) {
        Some(p) => p,
        None => {
            return None;
        },
    };
    if pos >= data.len() {
        return None;
    }
    let ghost sps = out@;
    let num_pps: usize = data[pos] as usize;
    assert(data@.skip(pos as int).skip(1) =~= data@.skip(pos + 1));
    match copy_units(data, pos + 1, num_pps, &mut out) {
        Some(_) => {
            assert(Seq::<u8>::empty() + sps =~= sps);
            Some(out)
        },
        None => None,
    }
}

/// Units, each after its length in two bytes.
pub open spec fn with_lengths(us: Seq<Seq<u8>>) -> Seq<u8>
    decreases us.len(),
{
    if us.len() == 0 {
        Seq::empty()
    } else {
        crate::wire::be_bytes(us.first().len(), 2) + us.first() + with_lengths(us.skip(1))
    }
}

/// Units, each after a start code.
pub open spec fn with_start_codes(us: Seq<Seq<u8>>) -> Seq<u8>
    decreases us.len(),
{
    if us.len() == 0 {
        Seq::empty()
    } else {
        start_code() + us.first() + with_start_codes(us.skip(1))
    }
}

/// Units that are written with their lengths are read back.
proof fn lemma_units(us: Seq<Seq<u8>>, rest: Seq<u8>)
    requires
        forall|i: int| 0 <= i < us.len() ==> (#[trigger] us[i]).len() <= 0xFFFF,
    ensures
        units(with_lengths(us) + rest, us.len()) == Some((with_start_codes(us), rest)),
    decreases us.len(),
{
    let data = with_lengths(us) + rest;
    if us.len() == 0 {
        assert(data =~= rest);
    } else {
        let u = us.first();
        let tail = us.skip(1);
        assert(u == us[0]);
        let head = crate::wire::be_bytes(u.len(), 2);
        crate::wire::lemma_be_bytes_len(u.len(), 2);
        crate::wire::lemma_pow256_values();
        crate::wire::law_be_value_of_be_bytes(u.len(), 2);
        assert(data.take(2) =~= head);
        assert(data.subrange(2, 2 + u.len() as int) =~= u);
        assert(data.skip(2 + u.len() as int) =~= with_lengths(tail) + rest);
        assert forall|i: int| 0 <= i < tail.len() implies (#[trigger] tail[i]).len() <= 0xFFFF by {
            assert(tail[i] == us[i + 1]);
        }
        lemma_units(tail, rest);
    }
}

/// A configuration record is turned into the byte stream of exactly the parameter sets that
/// it holds, sequence sets first.
pub proof fn law_record_is_turned_into_stream(
    profile: Seq<u8>,
    reserved: u8,
    sps: Seq<Seq<u8>>,
    pps: Seq<Seq<u8>>,
    extension: Seq<u8>,
)
    requires
        profile.len() == 5,
        reserved % 32 == 0,
        sps.len() < 32,
        pps.len() < 256,
        forall|i: int| 0 <= i < sps.len() ==> (#[trigger] sps[i]).len() <= 0xFFFF,
        forall|i: int| 0 <= i < pps.len() ==> (#[trigger] pps[i]).len() <= 0xFFFF,
    ensures
        stream_of(
            profile + seq![(reserved + sps.len()) as u8] + with_lengths(sps) + seq![
                pps.len() as u8,
            ] + with_lengths(pps) + extension,
        ) == Some(with_start_codes(sps) + with_start_codes(pps)),
        sps.len() > 0 ==> begins_stream(with_start_codes(sps) + with_start_codes(pps)),
{
    let data = profile + seq![(reserved + sps.len()) as u8] + with_lengths(sps) + seq![
        pps.len() as u8,
    ] + with_lengths(pps) + extension;
    let rest = seq![pps.len() as u8] + with_lengths(pps) + extension;
    assert(data.skip(6) =~= with_lengths(sps) + rest);
    assert(data[5] == (reserved + sps.len()) as u8);
    assert(reserved <= 224);
    assert(data[5] % 32 == sps.len());
    lemma_units(sps, rest);
    assert(rest.skip(1) =~= with_lengths(pps) + extension);
    lemma_units(pps, extension);
    if sps.len() > 0 {
        let out = with_start_codes(sps) + with_start_codes(pps);
        assert(out.take(4) =~= start_code());
    }
}

/// `h` lines of `w` bytes, which begin `stride` bytes apart.
pub open spec fn plane(src: Seq<u8>, stride: nat, w: nat, h: nat) -> Seq<u8>
    decreases h,
{
    if h == 0 {
        Seq::empty()
    } else {
        plane(src, stride, w, (h - 1) as nat) + src.subrange(
            (h - 1) * stride,
            (h - 1) * stride + w,
        )
    }
}

/// Whether `src` holds `h` lines of `w` bytes that begin `stride` bytes apart.
pub open spec fn holds_plane(src: nat, stride: nat, w: nat, h: nat) -> bool {
    w > 0 && h > 0 ==> (h - 1) * stride + w <= src
}

/// Copies `height` lines of `width` bytes, which begin `linesize` bytes apart, without what
/// stands between them.
pub fn copy_plane(src: &[u8], linesize: usize, width: usize, height: usize) -> (r: Vec<u8>)
    requires
        holds_plane(src@.len(), linesize as nat, width as nat, height as nat),
    ensures
        width > 0 ==> r@ == plane(src@, linesize as nat, width as nat, height as nat),
        width == 0 ==> r@.len() == 0,
{
    let mut out: Vec<u8> = Vec::new();
    if width == 0 {
        return out;
    }
    assert(src.len() == src@.len());
    let mut row: usize = 0;
    while row < height
        invariant
            row <= height,
            width > 0,
            height > 0 ==> (height - 1) * linesize + width <= src@.len() <= usize::MAX,
            out@ == plane(src@, linesize as nat, width as nat, row as nat),
        decreases height - row,
    {
        assert(0 <= row * linesize <= (height - 1) * linesize) by (nonlinear_arith)
            requires
                0 <= row <= height - 1,
        ;
        let from: usize = row * linesize;
        push_bytes(&mut out, &src[from..from + width]);
        row += 1;
    }
    out
}

/// How the bytes of a decoded picture are laid out.
#[derive(Debug, Clone, Copy, PartialEq, Eq, Structural)]
pub enum PixelFormat {
    /// Three planes.
    Yuv420p,
    /// A luma plane, and one in which the chroma values take turns.
    Nv12,
    /// Any other, under its number.
    Other(i32),
}

/// A picture as the decoder hands it out. `third` is not used where the chroma values share
/// a plane.
pub struct RawFrame<'a> {
    pub width: i32,
    pub height: i32,
    pub format: PixelFormat,
    /// How far apart the lines of the luma plane begin.
    pub linesize: i32,
    /// How far apart the lines of the chroma planes begin.
    pub uv_linesize: i32,
    pub first: &'a [u8],
    pub second: &'a [u8],
    pub third: &'a [u8],
}

/// `x`, or 0 where it is negative.
pub open spec fn at_least_zero(x: i32) -> nat {
    if x < 0 {
        0
    } else {
        x as nat
    }
}

fn not_negative(x: i32) -> (r: usize)
    ensures
        r == at_least_zero(x),
{
    if x < 0 {
        0
    } else {
        x as usize
    }
}

/// The plane of `h` lines of `w` bytes; nothing where it has no width.
pub open spec fn plane_of(src: Seq<u8>, stride: nat, w: nat, h: nat) -> Seq<u8> {
    if w == 0 {
        Seq::empty()
    } else {
        plane(src, stride, w, h)
    }
}

/// Every second value, from `from` on.
pub open spec fn every_second(s: Seq<u8>, from: int) -> Seq<u8> {
    Seq::new(s.len() / 2, |i: int| s[2 * i + from])
}

impl<'a> RawFrame<'a> {
    pub open spec fn w(self) -> nat {
        at_least_zero(self.width)
    }

    pub open spec fn h(self) -> nat {
        at_least_zero(self.height)
    }

    /// The planes hold what the size and the distances of the lines say.
    pub open spec fn sound(self) -> bool {
        let stride = at_least_zero(self.uv_linesize);
        let w = self.w() / 2;
        let h = self.h() / 2;
        &&& holds_plane(self.first@.len(), at_least_zero(self.linesize), self.w(), self.h())
        &&& self.format == PixelFormat::Yuv420p ==> holds_plane(self.second@.len(), stride, w, h)
            && holds_plane(self.third@.len(), stride, w, h)
        &&& self.format == PixelFormat::Nv12 ==> holds_plane(self.second@.len(), stride, w * 2, h)
    }
}

/// Copies the planes of a decoded picture, without padding; where the chroma values share a
/// plane they are parted.
pub fn copy_frame(frame: &RawFrame) -> (r: Result<DecodedFrame, String>)
    requires
        frame.sound(),
    ensures
        match r {
            Ok(d) => {
                let stride = at_least_zero(frame.uv_linesize);
                let w = frame.w() / 2;
                let h = frame.h() / 2;
                &&& frame.w() > 0 && frame.h() > 0
                &&& d.width == frame.w() && d.height == frame.h()
                &&& d.y@ == plane_of(
                    frame.first@,
                    at_least_zero(frame.linesize),
                    frame.w(),
                    frame.h(),
                )
                &&& match frame.format {
                    PixelFormat::Yuv420p => d.u@ == plane_of(frame.second@, stride, w, h) && d.v@
                        == plane_of(frame.third@, stride, w, h),
                    PixelFormat::Nv12 => d.u@ == every_second(
                        plane_of(frame.second@, stride, w * 2, h),
                        0,
                    ) && d.v@ == every_second(plane_of(frame.second@, stride, w * 2, h), 1),
                    PixelFormat::Other(_) => false,
                }
            },
            Err(e) => if frame.w() == 0 || frame.h() == 0 {
                e@ == "空帧"@
            } else {
                frame.format matches PixelFormat::Other(n) && e@ == "不支持的像素格式: "@ + signed(
                    n as int,
                )
            },
        },
{
    let width: usize = not_negative(frame.width);
    let height: usize = not_negative(frame.height);
    if width == 0 || height == 0 {
        return Err("空帧".to_owned());
    }
    let linesize: usize = not_negative(frame.linesize);
    let uv_linesize: usize = not_negative(frame.uv_linesize);
    let uv_h: usize = height / 2;
    let uv_w: usize = width / 2;
    match frame.format {
        PixelFormat::Yuv420p => {
            let y = copy_plane(frame.first, linesize, width, height);
            let u = copy_plane(frame.second, uv_linesize, uv_w, uv_h);
            let v = copy_plane(frame.third, uv_linesize, uv_w, uv_h);
            assert(u@ =~= plane_of(frame.second@, uv_linesize as nat, uv_w as nat, uv_h as nat));
            assert(v@ =~= plane_of(frame.third@, uv_linesize as nat, uv_w as nat, uv_h as nat));
            Ok(DecodedFrame { y, u, v, width, height })
        },
        PixelFormat::Nv12 => {
            let uv = copy_plane(frame.second, uv_linesize, uv_w * 2, uv_h);
            assert(uv@ =~= plane_of(
                frame.second@,
                uv_linesize as nat,
                (uv_w * 2) as nat,
                uv_h as nat,
            ));
            let mut u: Vec<u8> = Vec::new();
            let mut v: Vec<u8> = Vec::new();
            let n: usize = uv.len() / 2;
            assert(uv.len() == uv@.len());
            let mut i: usize = 0;
            while i < n
                invariant
                    i <= n,
                    n == uv@.len() / 2,
                    uv@.len() <= usize::MAX,
                    u@ =~= Seq::new(i as nat, |j: int| uv@[2 * j + 0]),
                    v@ =~= Seq::new(i as nat, |j: int| uv@[2 * j + 1]),
                decreases n - i,
            {
                u.push(uv[2 * i]);
                v.push(uv[2 * i + 1]);
                i += 1;
            }
            assert(u@ =~= every_second(uv@, 0));
            assert(v@ =~= every_second(uv@, 1));
            let y = copy_plane(frame.first, linesize, width, height);
            Ok(DecodedFrame { y, u, v, width, height })
        },
        PixelFormat::Other(n) => Err(cat2("不支持的像素格式: ", signed_text(n).as_str())),
    }
}

} // verus!
