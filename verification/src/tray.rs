//! The icon in the system tray.
use crate::text::same;
use vstd::prelude::*;

verus! {

/// How wide and high the icon is.
pub const ICON_SIZE: u32 = 32;

/// What the user chose in the menu of the icon.
#[derive(Debug, Clone, Copy, PartialEq, Eq, Structural)]
pub enum TrayEvent {
    /// To end the program.
    Exit,
}

/// How many of the chosen entries are looked at: all up to the first that ends the program.
pub open spec fn looked_at(ids: Seq<Seq<char>>) -> nat
    decreases ids.len(),
{
    if ids.len() == 0 {
        0
    } else if ids.first() == "exit"@ {
        1
    } else {
        1 + looked_at(ids.skip(1))
    }
}

/// What the entries `ids`, in the order in which they were chosen, ask for, and how many of
/// them were looked at. Entries that mean nothing are passed over.
pub fn check_event(ids: &[String]) -> (r: (Option<TrayEvent>, usize))
    ensures
        r.0 is Some <==> crate::text::string_views(ids@).contains("exit"@),
        r.1 == looked_at(crate::text::string_views(ids@)),
{
    let ghost v = crate::text::string_views(ids@);
    let mut i: usize = 0;
    assert(v.skip(0) =~= v);
    while i < ids.len()
        invariant
            i <= ids@.len(),
            v == crate::text::string_views(ids@),
            forall|j: int| 0 <= j < i ==> #[trigger] v[j] != "exit"@,
            looked_at(v) == i + looked_at(v.skip(i as int)),
        decreases ids@.len() - i,
    {
        assert(v.skip(i as int).first() == v[i as int]);
        assert(v.skip(i as int).skip(1) =~= v.skip(i + 1));
        if same(ids[i].as_str(), "exit") {
            assert(v[i as int] == "exit"@);
            return (Some(TrayEvent::Exit), i + 1);
        }
        i += 1;
    }
    (None, i)
}

/// Four times the square of the distance of the middle of pixel (`x`, `y`) from the middle
/// of the icon.
pub open spec fn distance(x: int, y: int) -> int {
    (2 * x - 31) * (2 * x - 31) + (2 * y - 31) * (2 * y - 31)
}

/// Whether a pixel that far from the middle, whose radius has 13.175 pixels, has at least the
/// opacity `a`: over the outer tenth of the radius it fades from 255 to 0.
pub open spec fn as_opaque_as(d: int, a: int) -> bool {
    d * 255_000 * 255_000 <= ((2550 - a) * 2635) * ((2550 - a) * 2635)
}

/// The greatest opacity up to `a` that a pixel that far from the middle has.
pub open spec fn opacity(d: int, a: int) -> int
    decreases a,
{
    if a <= 0 || as_opaque_as(d, a) {
        a
    } else {
        opacity(d, a - 1)
    }
}

/// A pixel of the icon: green inside of the circle, and nothing outside.
pub open spec fn icon_pixel(x: int, y: int) -> (int, int, int, int) {
    let d = distance(x, y);
    if as_opaque_as(d, 0) {
        (0x3D, 0xDC, 0x84, opacity(d, 255))
    } else {
        (0, 0, 0, 0)
    }
}

/// Byte `i` of the icon.
pub open spec fn icon_byte(i: int) -> int {
    let p = icon_pixel(i / 4 % 32, i / 4 / 32);
    if i % 4 == 0 {
        p.0
    } else if i % 4 == 1 {
        p.1
    } else if i % 4 == 2 {
        p.2
    } else {
        p.3
    }
}

fn square(x: u32) -> (r: u64)
    requires
        x < 32,
    ensures
        r == (2 * x - 31) * (2 * x - 31),
        r <= 961,
{
    let d: u64 = if x < 16 {
        31 - 2 * x as u64
    } else {
        2 * x as u64 - 31
    };
    assert(d * d == (2 * x - 31) * (2 * x - 31) && d * d <= 961) by (nonlinear_arith)
        requires
            d <= 31,
            d == 31 - 2 * x || d == 2 * x - 31,
    ;
    d * d
}

fn is_as_opaque_as(d: u64, a: u64) -> (r: bool)
    requires
        d <= 1922,
        a <= 255,
    ensures
        r == as_opaque_as(d as int, a as int),
{
    let k: u64 = (2550 - a) * 2635;
    assert(k * k <= 6_719_250 * 6_719_250) by (nonlinear_arith)
        requires
            0 <= k <= 6_719_250,
    ;
    d * 255_000 * 255_000 <= k * k
}

/// The icon: 32 x 32 pixels of four bytes, a green disc with a soft edge.
pub fn create_default_icon_data() -> (r: Vec<u8>)
    ensures
        r@.len() == 4096,
        forall|i: int| 0 <= i < 4096 ==> #[trigger] r@[i] == icon_byte(i),
{
    let mut data: Vec<u8> = Vec::new();
    let mut n: u32 = 0;
    while n < 1024
        invariant
            n <= 1024,
            data@.len() == 4 * n,
            forall|i: int| 0 <= i < 4 * n ==> #[trigger] data@[i] == icon_byte(i),
        decreases 1024 - n,
    {
        let x: u32 = n % 32;
        let y: u32 = n / 32;
        let d: u64 = square(x) + square(y);
        let ghost before = data@;
        assert(d == distance(x as int, y as int));
        if is_as_opaque_as(d, 0) {
            let mut a: u64 = 255;
            while a > 0 && !is_as_opaque_as(d, a)
                invariant
                    a <= 255,
                    d <= 1922,
                    opacity(d as int, 255) == opacity(d as int, a as int),
                decreases a,
            {
                a -= 1;
            }
            data.push(0x3D);
            data.push(0xDC);
            data.push(0x84);
            data.push(a as u8);
        } else {
            data.push(0);
            data.push(0);
            data.push(0);
            data.push(0);
        }
        assert forall|i: int| 0 <= i < 4 * n + 4 implies #[trigger] data@[i] == icon_byte(i) by {
            if i < 4 * n {
                assert(data@[i] == before[i]);
            } else {
                assert(i / 4 == n);
            }
        }
        n += 1;
    }
    data
}

/// The picture in a file of the format that files with the ending `extension` have, as red,
/// green, blue and alpha: its width, its height and its bytes; `None` where the file holds no
/// picture that can be read, or the format is not known.
pub uninterp spec fn picture_in(file: Seq<u8>, extension: Seq<char>) -> Option<
    (u32, u32, Seq<u8>),
>;

/// `image::load_from_memory_with_format`, with the format that
/// `image::ImageFormat::from_extension` gives, and `image::DynamicImage::to_rgba8` of the
/// picture. The format is one of those that are built in, so the result depends on the bytes
/// of the file and on the ending alone. There are four bytes per pixel.
#[verifier::external_body]
fn decode_picture(file: &[u8], extension: &str) -> (r: Option<(u32, u32, Vec<u8>)>)
    ensures
        match r {
            Some(p) => picture_in(file@, extension@) == Some((p.0, p.1, p.2@)) && p.2@.len()
                == 4 * p.0 * p.1,
            None => picture_in(file@, extension@) is None,
        },
{
    let format = image::ImageFormat::from_extension(extension)?;
    let rgba = image::load_from_memory_with_format(file, format).ok()?.to_rgba8();
    Some((rgba.width(), rgba.height(), rgba.into_raw()))
}

/// A picture, four bytes per pixel.
#[derive(Debug, Clone, PartialEq, Eq)]
pub struct Icon {
    pub width: u32,
    pub height: u32,
    pub rgba: Vec<u8>,
}

/// The icon in a PNG file; `None` where it holds no picture that can be read.
pub fn load_icon(file: &[u8]) -> (r: Option<Icon>)
    ensures
        match r {
            Some(i) => picture_in(file@, "png"@) == Some((i.width, i.height, i.rgba@))
                && i.rgba@.len() == 4 * i.width * i.height,
            None => picture_in(file@, "png"@) is None,
        },
{
    match decode_picture(file, "png") {
        Some((width, height, rgba)) => Some(Icon { width, height, rgba }),
        None => None,
    }
}

/// Of the chosen entries all are looked at up to the first that ends the program, and all where
/// none does.
pub proof fn law_entries_are_looked_at_in_order(before: Seq<Seq<char>>, after: Seq<Seq<char>>)
    requires
        !before.contains("exit"@),
    ensures
        looked_at(before) == before.len(),
        looked_at(before + seq!["exit"@] + after) == before.len() + 1,
    decreases before.len(),
{
    let ids = before + seq!["exit"@] + after;
    if before.len() > 0 {
        let t = before.skip(1);
        assert forall|i: int| 0 <= i < t.len() implies t[i] != "exit"@ by {
            assert(before.contains(before[i + 1]));
        }
        law_entries_are_looked_at_in_order(t, after);
        assert(before.contains(before[0]));
        assert(ids.first() == before[0]);
        assert(ids.skip(1) =~= t + seq!["exit"@] + after);
    } else {
        assert(ids.first() == "exit"@);
    }
}

proof fn lemma_opacity(d: int, a: int)
    requires
        a >= 0,
        as_opaque_as(d, 0),
    ensures
        0 <= opacity(d, a) <= a,
        as_opaque_as(d, opacity(d, a)),
        forall|b: int| opacity(d, a) < b <= a ==> !#[trigger] as_opaque_as(d, b),
    decreases a,
{
    if a > 0 && !as_opaque_as(d, a) {
        lemma_opacity(d, a - 1);
    }
}

/// The icon is a green disc: its middle is opaque, its corners are transparent, and a pixel is green
/// wherever it is not transparent. It is the same seen in a mirror.
pub proof fn law_icon_is_a_green_disc(x: int, y: int)
    requires
        0 <= x < 32,
        0 <= y < 32,
    ensures
        ({
            let p = icon_pixel(x, y);
            &&& p == (0int, 0int, 0int, 0int) || (p.0 == 0x3D && p.1 == 0xDC && p.2 == 0x84 && 0
                <= p.3 <= 255)
            &&& 8 <= x < 24 && 8 <= y < 24 ==> p == (0x3Dint, 0xDCint, 0x84int, 255int)
            &&& (x < 2 || x >= 30) ==> p.3 == 0
            &&& (x < 5 || x >= 27) && (y < 5 || y >= 27) ==> p.3 == 0
            &&& icon_pixel(31 - x, y) == p
            &&& icon_pixel(y, x) == p
        }),
{
    let d = distance(x, y);
    let a = 2 * x - 31;
    let b = 2 * y - 31;
    assert((2 * (31 - x) - 31) * (2 * (31 - x) - 31) == a * a) by (nonlinear_arith)
        requires
            a == 2 * x - 31,
    ;
    if as_opaque_as(d, 0) {
        lemma_opacity(d, 255);
    }
    if 8 <= x < 24 && 8 <= y < 24 {
        assert(0 <= a * a <= 225 && 0 <= b * b <= 225) by (nonlinear_arith)
            requires
                -15 <= a <= 15,
                -15 <= b <= 15,
        ;
        assert(d == a * a + b * b);
        assert(d * 255_000 * 255_000 <= 6_047_325 * 6_047_325) by (nonlinear_arith)
            requires
                0 <= d <= 450,
        ;
        assert(6_047_325 * 6_047_325 <= 6_719_250 * 6_719_250int) by (nonlinear_arith);
        assert(as_opaque_as(d, 255));
        assert(as_opaque_as(d, 0));
    }
    if x < 2 || x >= 30 {
        assert(a * a >= 784 && b * b >= 0) by (nonlinear_arith)
            requires
                a <= -28 || a >= 28,
        ;
        assert(!as_opaque_as(d, 0));
    }
    if (x < 5 || x >= 27) && (y < 5 || y >= 27) {
        assert(a * a >= 529 && b * b >= 529) by (nonlinear_arith)
            requires
                a <= -23 || a >= 23,
                b <= -23 || b >= 23,
        ;
        assert(!as_opaque_as(d, 0));
    }
}

/// The bytes of the icon are those of its pixels, line by line: red, green, blue and opacity.
pub proof fn law_icon_is_made_of_its_pixels(x: int, y: int)
    requires
        0 <= x < 32,
        0 <= y < 32,
    ensures
        ({
            let at = 4 * (32 * y + x);
            (icon_byte(at), icon_byte(at + 1), icon_byte(at + 2), icon_byte(at + 3)) == icon_pixel(
                x,
                y,
            )
        }),
{
}

} // verus!
