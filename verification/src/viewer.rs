//! Drawing an image message into a window's frame of 4-byte pixels.

use vstd::prelude::*;
use crate::clock::Time;
use crate::msg::{Image, is_rgb8_message_of, rgb8_bytes, rgb8_size_fits};
use crate::pixel::{be_bytes, from_rgb, lemma_rgb_value_be_bytes, write_u32_be};

verus! {

/// The number of whole 4-byte pixels in a frame of `len` bytes.
pub open spec fn frame_pixels(len: int) -> int {
    len / 4
}

/// The column of frame pixel `c` in a frame `screen_width` pixels wide
/// (the pixel's index is taken as a `u32`, as the drawing loop does).
pub open spec fn column(c: usize, screen_width: u32) -> u32 {
    ((c as u32) % screen_width) as u32
}

/// The row of frame pixel `c` in a frame `screen_width` pixels wide.
pub open spec fn row(c: usize, screen_width: u32) -> u32 {
    ((c as u32) / screen_width) as u32
}

/// The index of the message pixel that frame pixel `c` shows.
pub open spec fn source_pixel(msg: Image, c: usize, screen_width: u32) -> int {
    row(c, screen_width) * msg.width + column(c, screen_width)
}

/// Frame pixel `c` lies right of the message's width and is passed over.
pub open spec fn passes_over(msg: Image, c: usize, screen_width: u32) -> bool {
    column(c, screen_width) >= msg.width
}

/// At frame pixel `c` drawing ends: it lies below the message's height, or
/// its three bytes would not lie wholly before the last byte of `data`.
pub open spec fn ends_at(msg: Image, c: usize, screen_width: u32) -> bool {
    &&& !passes_over(msg, c, screen_width)
    &&& (row(c, screen_width) >= msg.height || 3 * source_pixel(msg, c, screen_width) + 2
        >= msg.data.len())
}

/// Drawing has not ended before frame pixel `c`.
pub open spec fn reaches(msg: Image, c: usize, screen_width: u32) -> bool {
    forall|d: usize| d < c ==> !#[trigger] ends_at(msg, d, screen_width)
}

/// Frame pixel `c` of a frame with `n` pixels is drawn from the message.
pub open spec fn is_drawn(msg: Image, c: usize, screen_width: u32, n: int) -> bool {
    &&& c < n
    &&& reaches(msg, c, screen_width)
    &&& !passes_over(msg, c, screen_width)
    &&& !ends_at(msg, c, screen_width)
}

/// The four bytes that a drawn frame pixel `c` receives: the message's
/// third, second and first byte of its source pixel, then zero.
pub open spec fn drawn_bytes(msg: Image, c: usize, screen_width: u32) -> Seq<u8> {
    let b = 3 * source_pixel(msg, c, screen_width);
    seq![msg.data@[b + 2], msg.data@[b + 1], msg.data@[b], 0u8]
}

/// Frame `new` is frame `old` with the message drawn in: each byte of a
/// drawn pixel comes from `drawn_bytes`, every other byte is unchanged.
pub open spec fn drawn_frame(
    msg: Image,
    old: Seq<u8>,
    new: Seq<u8>,
    screen_width: u32,
) -> bool {
    &&& new.len() == old.len()
    &&& forall|i: int|
        0 <= i < old.len() ==> #[trigger] new[i] == if is_drawn(
            msg,
            (i / 4) as usize,
            screen_width,
            frame_pixels(old.len() as int),
        ) {
            drawn_bytes(msg, (i / 4) as usize, screen_width)[i % 4]
        } else {
            old[i]
        }
}

/// Drawing computes each source byte offset in `u32`; it stays in range for
/// every pixel that drawing reaches.
pub open spec fn offsets_fit(msg: Image, screen_width: u32, n: int) -> bool {
    forall|c: usize|
        #![trigger source_pixel(msg, c, screen_width)]
        c < n && reaches(msg, c, screen_width) && !passes_over(msg, c, screen_width) && row(
            c,
            screen_width,
        ) < msg.height ==> 3 * source_pixel(msg, c, screen_width) + 2 <= u32::MAX
}

/// Where drawing stopped because the message's data ran short: the frame
/// pixel, its column and row, and the offset of its first source byte.
#[derive(Clone, Copy, Debug, PartialEq, Eq, Structural)]
pub struct Shortfall {
    pub pixel: usize,
    pub column: u32,
    pub row: u32,
    pub offset: u32,
}

/// Drawing reaches frame pixel `c` of a frame with `n` pixels, inside the
/// message's width and height, and finds the message's data too short for
/// its three bytes.
pub open spec fn runs_short_at(msg: Image, c: usize, screen_width: u32, n: int) -> bool {
    &&& c < n
    &&& reaches(msg, c, screen_width)
    &&& !passes_over(msg, c, screen_width)
    &&& row(c, screen_width) < msg.height
    &&& 3 * source_pixel(msg, c, screen_width) + 2 >= msg.data.len()
}

/// `s` tells where drawing ran short, as `runs_short_at` says.
pub open spec fn is_shortfall(msg: Image, s: Shortfall, screen_width: u32, n: int) -> bool {
    &&& runs_short_at(msg, s.pixel, screen_width, n)
    &&& s.column == column(s.pixel, screen_width)
    &&& s.row == row(s.pixel, screen_width)
    &&& s.offset == 3 * source_pixel(msg, s.pixel, screen_width)
}

/// Draws `msg`, taken as three bytes per pixel, into `screen`, a frame of
/// 4-byte pixels `screen_width` wide. Frame pixels right of the message's
/// width are skipped; drawing ends at the first pixel below its height or
/// past the end of its data. Each drawn pixel gets the packed
/// `from_rgb(third, second, first)` of its source bytes, most significant
/// byte first. Where drawing ended because the data ran short, that place is
/// returned, for the caller to warn of it.
pub fn image_msg_to_pixels(
    msg: Image,
    screen: &mut [u8],
    screen_width: u32,
    _screen_height: u32,
) -> (short: Option<Shortfall>)
    requires
        old(screen)@.len() >= 4 ==> screen_width > 0,
        offsets_fit(msg, screen_width, frame_pixels(old(screen)@.len() as int)),
    ensures
        drawn_frame(msg, old(screen)@, final(screen)@, screen_width),
        short matches Some(s) ==> is_shortfall(
            msg,
            s,
            screen_width,
            frame_pixels(old(screen)@.len() as int),
        ),
        short is None <==> forall|c: usize|
            !#[trigger] runs_short_at(msg, c, screen_width, frame_pixels(old(screen)@.len() as int)),
{
    let channels: u32 = 3;
    let n = screen.len() / 4;
    let ghost old_frame = screen@;
    let mut count: usize = 0;
    let mut short: Option<Shortfall> = None;
    while count < n
        invariant_except_break
            short is None,
        invariant
            forall|c: usize| c < count ==> !#[trigger] runs_short_at(msg, c, screen_width, n as int),
            channels == 3,
            n == frame_pixels(old_frame.len() as int),
            screen@.len() == old_frame.len(),
            old_frame.len() <= usize::MAX,
            count <= n,
            n >= 1 ==> screen_width > 0,
            offsets_fit(msg, screen_width, n as int),
            reaches(msg, count, screen_width),
            forall|i: int|
                0 <= i < old_frame.len() ==> #[trigger] screen@[i] == if i / 4 < count && is_drawn(
                    msg,
                    (i / 4) as usize,
                    screen_width,
                    n as int,
                ) {
                    drawn_bytes(msg, (i / 4) as usize, screen_width)[i % 4]
                } else {
                    old_frame[i]
                },
        ensures
            drawn_frame(msg, old_frame, screen@, screen_width),
            short matches Some(s) ==> is_shortfall(msg, s, screen_width, n as int),
            short is None <==> forall|c: usize|
                !#[trigger] runs_short_at(msg, c, screen_width, n as int),
        decreases n - count,
    {
        let x = count as u32 % screen_width;
        let y = count as u32 / screen_width;
        if x >= msg.width {
            proof {
                assert forall|d: usize| d < count + 1 implies !#[trigger] ends_at(
                    msg,
                    d,
                    screen_width,
                ) by {
                    if d < count {
                    }
                }
            }
            assert(!runs_short_at(msg, count, screen_width, n as int));
            count = count + 1;
            continue;
        }
        if y >= msg.height {
            proof {
                assert(ends_at(msg, count, screen_width));
                lemma_frame_ends(msg, old_frame, screen@, screen_width, count, n as int);
                assert forall|c: usize| !#[trigger] runs_short_at(msg, c, screen_width, n as int) by {
                    if c > count && runs_short_at(msg, c, screen_width, n as int) {
                        assert(!ends_at(msg, count, screen_width));
                    }
                }
            }
            break;
        }
        assert(3 * (y as int * msg.width as int + x as int) + 2 <= u32::MAX) by {
            assert(row(count, screen_width) == y && column(count, screen_width) == x);
            assert(!passes_over(msg, count, screen_width));
            if ends_at(msg, count, screen_width) {
            }
        }
        assert((y as int * msg.width as int + x as int) * channels == 3 * (y as int
            * msg.width as int + x as int)) by (nonlinear_arith)
            requires
                channels == 3,
        ;
        let msg_byte_base_ind = (y * msg.width + x) * channels;
        if (msg_byte_base_ind + 2) as usize >= msg.data.len() {
            proof {
                assert(ends_at(msg, count, screen_width));
                lemma_frame_ends(msg, old_frame, screen@, screen_width, count, n as int);
            }
            short = Some(Shortfall { pixel: count, column: x, row: y, offset: msg_byte_base_ind });
            assert(runs_short_at(msg, count, screen_width, n as int));
            break;
        }
        let msg_byte_base_ind = msg_byte_base_ind as usize;
        let val = from_rgb(
            msg.data[msg_byte_base_ind + 2],
            msg.data[msg_byte_base_ind + 1],
            msg.data[msg_byte_base_ind],
        );
        let ghost before = screen@;
        write_u32_be(screen, count * 4, val);
        proof {
            lemma_rgb_value_be_bytes(
                msg.data@[msg_byte_base_ind + 2],
                msg.data@[msg_byte_base_ind + 1],
                msg.data@[msg_byte_base_ind as int],
            );
            assert(is_drawn(msg, count, screen_width, n as int));
            assert(!runs_short_at(msg, count, screen_width, n as int));
            assert forall|d: usize| d < count + 1 implies !#[trigger] ends_at(
                msg,
                d,
                screen_width,
            ) by {
                if d < count {
                }
            }
            assert forall|i: int| 0 <= i < old_frame.len() implies #[trigger] screen@[i] == if i / 4
                < count + 1 && is_drawn(msg, (i / 4) as usize, screen_width, n as int) {
                drawn_bytes(msg, (i / 4) as usize, screen_width)[i % 4]
            } else {
                old_frame[i]
            } by {
                if i / 4 == count {
                    assert(screen@[i] == be_bytes(val)[i - 4 * count]);
                } else {
                    assert(screen@[i] == before[i]);
                }
            }
        }
        count = count + 1;
    }
    short
}

/// Once drawing ends at frame pixel `c`, no pixel from `c` on is drawn, so a
/// frame drawn up to `c` is the whole drawing.
proof fn lemma_frame_ends(
    msg: Image,
    old: Seq<u8>,
    new: Seq<u8>,
    screen_width: u32,
    c: usize,
    n: int,
)
    requires
        n == frame_pixels(old.len() as int),
        old.len() <= usize::MAX,
        new.len() == old.len(),
        ends_at(msg, c, screen_width),
        forall|i: int|
            0 <= i < old.len() ==> #[trigger] new[i] == if i / 4 < c && is_drawn(
                msg,
                (i / 4) as usize,
                screen_width,
                n,
            ) {
                drawn_bytes(msg, (i / 4) as usize, screen_width)[i % 4]
            } else {
                old[i]
            },
    ensures
        drawn_frame(msg, old, new, screen_width),
{
    assert forall|i: int| 0 <= i < old.len() implies #[trigger] new[i] == if is_drawn(
        msg,
        (i / 4) as usize,
        screen_width,
        frame_pixels(old.len() as int),
    ) {
        drawn_bytes(msg, (i / 4) as usize, screen_width)[i % 4]
    } else {
        old[i]
    } by {
        if i / 4 >= c {
            if (i / 4) as usize > c {
                assert(!reaches(msg, (i / 4) as usize, screen_width));
            }
        }
    }
}

} // verus!

verus! {

/// Drawing offsets stay in `u32` for every message whose three bytes per
/// pixel over its whole area count up to at most `u32::MAX`.
pub proof fn lemma_offsets_fit_for_small_images(msg: Image, screen_width: u32, n: int)
    requires
        3 * msg.width * msg.height <= u32::MAX,
    ensures
        offsets_fit(msg, screen_width, n),
{
    assert forall|c: usize|
        #![trigger source_pixel(msg, c, screen_width)]
        c < n && reaches(msg, c, screen_width) && !passes_over(msg, c, screen_width) && row(
            c,
            screen_width,
        ) < msg.height implies 3 * source_pixel(msg, c, screen_width) + 2 <= u32::MAX by {
        let y = row(c, screen_width) as int;
        let x = column(c, screen_width) as int;
        let w = msg.width as int;
        let h = msg.height as int;
        assert(y * w + x <= h * w - 1) by (nonlinear_arith)
            requires
                0 <= y < h,
                0 <= x < w,
        ;
        assert(3 * (h * w) == 3 * w * h) by (nonlinear_arith);
    }
}

} // verus!

verus! {

/// Drawing the `rgb8` message of a picture into a frame at least as wide as
/// the picture, with room for all its rows, shows picture pixel `(x, y)` at
/// frame pixel `y * screen_width + x`: its blue, green and red channels
/// followed by a zero byte.
pub proof fn law_picture_shown_in_frame(
    msg: Image,
    width: u32,
    height: u32,
    pixels: Seq<[u8; 4]>,
    stamp: Time,
    screen_width: u32,
    n: int,
    x: u32,
    y: u32,
)
    requires
        is_rgb8_message_of(msg, width, height, pixels, stamp),
        pixels.len() == width * height,
        rgb8_size_fits(width, height),
        width <= screen_width,
        screen_width * height <= n <= usize::MAX,
        screen_width * height <= 0x1_0000_0000,
        x < width,
        y < height,
    ensures
        offsets_fit(msg, screen_width, n),
        is_drawn(msg, (y * screen_width + x) as usize, screen_width, n),
        ({
            let px = pixels[y * width + x];
            drawn_bytes(msg, (y * screen_width + x) as usize, screen_width) == seq![
                px[2],
                px[1],
                px[0],
                0u8,
            ]
        }),
{
    let w = width as int;
    let h = height as int;
    let sw = screen_width as int;
    assert(3 * w * h == 3 * (w * h)) by (nonlinear_arith);
    lemma_offsets_fit_for_small_images(msg, screen_width, n);
    let ci = y * sw + x;
    assert(ci < sw * h) by (nonlinear_arith)
        requires
            ci == y * sw + x,
            x < w <= sw,
            y < h,
    ;
    lemma_picture_pixel(msg, pixels, screen_width, x, y);
}

/// Frame pixel `y * screen_width + x` of a frame at least as wide as a
/// message that holds the `rgb8` bytes of its pixels: drawing reaches it,
/// it lies inside the message, and its bytes are those of pixel `(x, y)`.
proof fn lemma_picture_pixel(msg: Image, pixels: Seq<[u8; 4]>, screen_width: u32, x: u32, y: u32)
    requires
        msg.data@ == rgb8_bytes(pixels),
        pixels.len() == msg.width * msg.height,
        msg.width <= screen_width,
        x < msg.width,
        y < msg.height,
        y * screen_width + x < 0x1_0000_0000,
    ensures
        ({
            let c = (y * screen_width + x) as usize;
            &&& reaches(msg, c, screen_width)
            &&& !passes_over(msg, c, screen_width)
            &&& !ends_at(msg, c, screen_width)
            &&& column(c, screen_width) == x
            &&& row(c, screen_width) == y
            &&& source_pixel(msg, c, screen_width) == y * msg.width + x
            &&& drawn_bytes(msg, c, screen_width) == seq![
                pixels[y * msg.width + x][2],
                pixels[y * msg.width + x][1],
                pixels[y * msg.width + x][0],
                0u8,
            ]
        }),
{
    let w = msg.width as int;
    let h = msg.height as int;
    let sw = screen_width as int;
    let ci = y * sw + x;
    let c = ci as usize;
    assert(c as u32 == c);
    vstd::arithmetic::div_mod::lemma_fundamental_div_mod_converse(ci, sw, y as int, x as int);
    assert(row(c, screen_width) == y && column(c, screen_width) == x);
    let p = y * w + x;
    assert(p <= w * h - 1) by (nonlinear_arith)
        requires
            p == y * w + x,
            0 <= y < h,
            0 <= x < w,
    ;
    assert(msg.data.len() == 3 * (w * h));
    assert(!ends_at(msg, c, screen_width));
    assert forall|d: usize| d < c implies !#[trigger] ends_at(msg, d, screen_width) by {
        assert(d as u32 == d);
        vstd::arithmetic::div_mod::lemma_div_is_ordered(d as int, ci, sw);
        assert(ci / sw == y);
        let yd = row(d, screen_width) as int;
        let xd = column(d, screen_width) as int;
        if xd < w {
            assert(yd * w + xd <= w * h - 1) by (nonlinear_arith)
                requires
                    0 <= yd <= y < h,
                    0 <= xd < w,
            ;
        }
    }
    let b = 3 * p;
    assert(msg.data@[b] == pixels[p][0] && msg.data@[b + 1] == pixels[p][1] && msg.data@[b + 2]
        == pixels[p][2]) by {
        assert((b + 0) / 3 == p && (b + 0) % 3 == 0);
        assert((b + 1) / 3 == p && (b + 1) % 3 == 1);
        assert((b + 2) / 3 == p && (b + 2) % 3 == 2);
        assert(msg.data@[b] == rgb8_bytes(pixels)[b]);
        assert(msg.data@[b + 1] == rgb8_bytes(pixels)[b + 1]);
        assert(msg.data@[b + 2] == rgb8_bytes(pixels)[b + 2]);
    }
    assert(source_pixel(msg, c, screen_width) == p);
    assert(drawn_bytes(msg, c, screen_width) =~= seq![
        pixels[p][2],
        pixels[p][1],
        pixels[p][0],
        0u8,
    ]);
}

/// The four bytes at frame pixel `c` of a frame drawn with `msg` are
/// `drawn_bytes` where the pixel is drawn, and the old ones otherwise.
proof fn lemma_frame_pixel_bytes(msg: Image, old: Seq<u8>, new: Seq<u8>, screen_width: u32, c: int)
    requires
        drawn_frame(msg, old, new, screen_width),
        0 <= c,
        4 * c + 4 <= old.len(),
    ensures
        is_drawn(msg, c as usize, screen_width, frame_pixels(old.len() as int)) ==> new.subrange(
            4 * c,
            4 * c + 4,
        ) == drawn_bytes(msg, c as usize, screen_width),
        !is_drawn(msg, c as usize, screen_width, frame_pixels(old.len() as int)) ==> new.subrange(
            4 * c,
            4 * c + 4,
        ) == old.subrange(4 * c, 4 * c + 4),
{
    assert forall|k: int| 0 <= k < 4 implies (#[trigger] new[4 * c + k]) == (if is_drawn(
        msg,
        c as usize,
        screen_width,
        frame_pixels(old.len() as int),
    ) {
        drawn_bytes(msg, c as usize, screen_width)[k]
    } else {
        old[4 * c + k]
    }) by {
        assert((4 * c + k) / 4 == c && (4 * c + k) % 4 == k);
    }
    if is_drawn(msg, c as usize, screen_width, frame_pixels(old.len() as int)) {
        assert(new.subrange(4 * c, 4 * c + 4) =~= drawn_bytes(msg, c as usize, screen_width));
    } else {
        assert(new.subrange(4 * c, 4 * c + 4) =~= old.subrange(4 * c, 4 * c + 4));
    }
}

/// Drawing a message that holds the `rgb8` bytes of its pixels into a frame
/// at least as wide as it, whatever the message's encoding or header and
/// however many rows the frame has, shows pixel `(x, y)` at frame pixel
/// `y * screen_width + x` wherever the frame has that pixel: its blue,
/// green and red channels, then a zero byte.
pub proof fn law_picture_drawn_into_any_frame(
    msg: Image,
    pixels: Seq<[u8; 4]>,
    old: Seq<u8>,
    new: Seq<u8>,
    screen_width: u32,
    x: u32,
    y: u32,
)
    requires
        drawn_frame(msg, old, new, screen_width),
        old.len() <= usize::MAX,
        msg.data@ == rgb8_bytes(pixels),
        pixels.len() == msg.width * msg.height,
        msg.width <= screen_width,
        x < msg.width,
        y < msg.height,
        4 * (y * screen_width + x) + 4 <= old.len(),
        y * screen_width + x < 0x1_0000_0000,
    ensures
        ({
            let c = y * screen_width + x;
            let px = pixels[y * msg.width + x];
            new.subrange(4 * c, 4 * c + 4) == seq![px[2], px[1], px[0], 0u8]
        }),
{
    let c = y * screen_width + x;
    lemma_picture_pixel(msg, pixels, screen_width, x, y);
    assert(c < frame_pixels(old.len() as int));
    assert(is_drawn(msg, c as usize, screen_width, frame_pixels(old.len() as int)));
    lemma_frame_pixel_bytes(msg, old, new, screen_width, c);
}

/// Whatever the message's encoding or header and whatever the frame's size,
/// a frame pixel inside the message's width and height, whose three source
/// bytes lie in the data and before which drawing has not ended, is drawn
/// with those bytes: third, second, first, then zero.
pub proof fn law_reached_pixel_drawn(
    msg: Image,
    old: Seq<u8>,
    new: Seq<u8>,
    screen_width: u32,
    c: usize,
)
    requires
        drawn_frame(msg, old, new, screen_width),
        4 * c + 4 <= old.len(),
        reaches(msg, c, screen_width),
        column(c, screen_width) < msg.width,
        row(c, screen_width) < msg.height,
        3 * source_pixel(msg, c, screen_width) + 2 < msg.data.len(),
    ensures
        ({
            let b = 3 * source_pixel(msg, c, screen_width);
            new.subrange(4 * c, 4 * c + 4) == seq![
                msg.data@[b + 2],
                msg.data@[b + 1],
                msg.data@[b],
                0u8,
            ]
        }),
{
    assert(is_drawn(msg, c, screen_width, frame_pixels(old.len() as int)));
    lemma_frame_pixel_bytes(msg, old, new, screen_width, c as int);
}

/// Frame pixels right of the message's width keep their bytes.
pub proof fn law_columns_right_of_message_kept(
    msg: Image,
    old: Seq<u8>,
    new: Seq<u8>,
    screen_width: u32,
    c: usize,
)
    requires
        drawn_frame(msg, old, new, screen_width),
        4 * c + 4 <= old.len(),
        column(c, screen_width) >= msg.width,
    ensures
        new.subrange(4 * c, 4 * c + 4) == old.subrange(4 * c, 4 * c + 4),
{
    lemma_frame_pixel_bytes(msg, old, new, screen_width, c as int);
}

/// A message whose data holds three bytes for each of its pixels never runs
/// short, whatever the frame.
pub proof fn law_complete_data_never_short(msg: Image, screen_width: u32, n: int, c: usize)
    requires
        msg.data.len() >= 3 * msg.width * msg.height,
    ensures
        !runs_short_at(msg, c, screen_width, n),
{
    if runs_short_at(msg, c, screen_width, n) {
        let y = row(c, screen_width) as int;
        let x = column(c, screen_width) as int;
        let w = msg.width as int;
        let h = msg.height as int;
        assert(y * w + x <= w * h - 1) by (nonlinear_arith)
            requires
                0 <= y < h,
                0 <= x < w,
        ;
        assert(3 * w * h == 3 * (w * h)) by (nonlinear_arith);
    }
}

} // verus!

verus! {

/// Drawing a message into a frame that already shows it changes nothing.
pub proof fn law_redrawing_changes_nothing(
    msg: Image,
    first: Seq<u8>,
    second: Seq<u8>,
    third: Seq<u8>,
    screen_width: u32,
)
    requires
        drawn_frame(msg, first, second, screen_width),
        drawn_frame(msg, second, third, screen_width),
    ensures
        third == second,
{
    assert(third =~= second);
}

} // verus!

verus! {

/// Whether drawing `msg` into a frame of `screen_len` bytes, `screen_width`
/// pixels wide, keeps its `u32` byte offsets in range: the test to make
/// before `image_msg_to_pixels`. It follows the drawing through the frame
/// and computes the offsets in `u64`.
pub fn drawing_offsets_fit(msg: &Image, screen_len: usize, screen_width: u32) -> (fits: bool)
    requires
        screen_len >= 4 ==> screen_width > 0,
    ensures
        fits == offsets_fit(*msg, screen_width, frame_pixels(screen_len as int)),
{
    let n = screen_len / 4;
    let mut count: usize = 0;
    while count < n
        invariant
            n == frame_pixels(screen_len as int),
            n >= 1 ==> screen_width > 0,
            count <= n,
            reaches(*msg, count, screen_width),
            forall|c: usize|
                #![trigger source_pixel(*msg, c, screen_width)]
                c < count && reaches(*msg, c, screen_width) && !passes_over(*msg, c, screen_width)
                    && row(c, screen_width) < msg.height ==> 3 * source_pixel(*msg, c, screen_width)
                    + 2 <= u32::MAX,
        decreases n - count,
    {
        let x = count as u32 % screen_width;
        let y = count as u32 / screen_width;
        assert(row(count, screen_width) == y && column(count, screen_width) == x);
        if x < msg.width {
            if y >= msg.height {
                proof {
                    assert(ends_at(*msg, count, screen_width));
                    lemma_fit_from_end(*msg, screen_width, count, n as int);
                }
                return true;
            }
            assert(y as int * msg.width as int <= 0xffff_fffe_0000_0001) by (nonlinear_arith)
                requires
                    y <= u32::MAX,
                    msg.width <= u32::MAX,
            ;
            let p: u64 = (y as u64) * (msg.width as u64) + (x as u64);
            assert(p == source_pixel(*msg, count, screen_width));
            if p > (u32::MAX as u64 - 2) / 3 {
                assert(!(3 * source_pixel(*msg, count, screen_width) + 2 <= u32::MAX));
                return false;
            }
            if (3 * p + 2) as usize >= msg.data.len() {
                proof {
                    assert(ends_at(*msg, count, screen_width));
                    lemma_fit_from_end(*msg, screen_width, count, n as int);
                }
                return true;
            }
        }
        proof {
            assert(!ends_at(*msg, count, screen_width));
            assert forall|d: usize| d < count + 1 implies !#[trigger] ends_at(
                *msg,
                d,
                screen_width,
            ) by {
                if d < count {
                }
            }
        }
        count = count + 1;
    }
    true
}

/// Where drawing ends at frame pixel `c` and the offsets fit up to and
/// including `c`, they fit for the whole frame.
proof fn lemma_fit_from_end(msg: Image, screen_width: u32, c: usize, n: int)
    requires
        ends_at(msg, c, screen_width),
        row(c, screen_width) >= msg.height || 3 * source_pixel(msg, c, screen_width) + 2
            <= u32::MAX,
        forall|d: usize|
            #![trigger source_pixel(msg, d, screen_width)]
            d < c && reaches(msg, d, screen_width) && !passes_over(msg, d, screen_width) && row(
                d,
                screen_width,
            ) < msg.height ==> 3 * source_pixel(msg, d, screen_width) + 2 <= u32::MAX,
    ensures
        offsets_fit(msg, screen_width, n),
{
    assert forall|d: usize|
        #![trigger source_pixel(msg, d, screen_width)]
        d < n && reaches(msg, d, screen_width) && !passes_over(msg, d, screen_width) && row(
            d,
            screen_width,
        ) < msg.height implies 3 * source_pixel(msg, d, screen_width) + 2 <= u32::MAX by {
        if d > c {
            assert(!reaches(msg, d, screen_width));
        }
    }
}

} // verus!
