//! The `sensor_msgs/Image` message and its construction from a decoded picture.

use vstd::prelude::*;
use crate::clock::{RosClock, Time};

verus! {

/// The header that ROS messages start with.
#[derive(Debug)]
pub struct Header {
    pub seq: u32,
    pub stamp: Time,
    pub frame_id: String,
}

/// An uncompressed image as `sensor_msgs/Image` carries it: `height` rows of
/// `step` bytes each in `data`, laid out as `encoding` says.
#[derive(Debug)]
pub struct Image {
    pub header: Header,
    pub height: u32,
    pub width: u32,
    pub encoding: String,
    pub is_bigendian: u8,
    pub step: u32,
    pub data: Vec<u8>,
}

/// A decoded picture: `width * height` pixels in row-major order, each as
/// red, green, blue and alpha.
pub struct Picture {
    width: u32,
    height: u32,
    pixels: Vec<[u8; 4]>,
}

impl Picture {
    #[verifier::type_invariant]
    spec fn well_formed(self) -> bool {
        self.pixels.len() == self.width as int * self.height as int
    }

    /// The picture's width in pixels.
    pub closed spec fn spec_width(&self) -> u32 {
        self.width
    }

    /// The picture's height in pixels.
    pub closed spec fn spec_height(&self) -> u32 {
        self.height
    }

    /// The picture's pixels, row after row.
    pub closed spec fn spec_pixels(&self) -> Seq<[u8; 4]> {
        self.pixels@
    }

    /// A picture of the given size, where `pixels` holds exactly
    /// `width * height` of them; `None` otherwise.
    pub fn new(width: u32, height: u32, pixels: Vec<[u8; 4]>) -> (r: Option<Picture>)
        ensures
            r is Some <==> pixels.len() == width as int * height as int,
            r matches Some(p) ==> {
                &&& p.spec_width() == width
                &&& p.spec_height() == height
                &&& p.spec_pixels() == pixels@
            },
    {
        assert((width as u64) * (height as u64) <= u64::MAX) by (nonlinear_arith);
        if (pixels.len() as u64) == (width as u64) * (height as u64) {
            Some(Picture { width, height, pixels })
        } else {
            None
        }
    }

    /// The width and height, as `GenericImageView::dimensions` gives them.
    pub fn dimensions(&self) -> (d: (u32, u32))
        ensures
            d == (self.spec_width(), self.spec_height()),
            self.spec_pixels().len() == d.0 as int * d.1 as int,
    {
        proof {
            use_type_invariant(self);
        }
        (self.width, self.height)
    }

    /// The pixel at `index` in row-major order.
    pub fn pixel(&self, index: usize) -> (p: [u8; 4])
        requires
            index < self.spec_pixels().len(),
        ensures
            p == self.spec_pixels()[index as int],
    {
        self.pixels[index]
    }
}

/// The bytes of an `rgb8` image holding `pixels`: red, green and blue of
/// each pixel in turn, alpha left out.
pub open spec fn rgb8_bytes(pixels: Seq<[u8; 4]>) -> Seq<u8> {
    Seq::new(3 * pixels.len(), |k: int| pixels[k / 3][k % 3])
}

/// `msg` is the `rgb8` image message of a `width` by `height` picture with
/// `pixels`, stamped with `stamp`.
pub open spec fn is_rgb8_message_of(
    msg: Image,
    width: u32,
    height: u32,
    pixels: Seq<[u8; 4]>,
    stamp: Time,
) -> bool {
    &&& msg.header.seq == 0
    &&& msg.header.stamp == stamp
    &&& msg.header.frame_id@ == "todo"@
    &&& msg.width == width
    &&& msg.height == height
    &&& msg.encoding@ == "rgb8"@
    &&& msg.is_bigendian == 0
    &&& msg.step == 3 * width
    &&& msg.data@ == rgb8_bytes(pixels)
    &&& msg.data@.len() == msg.step as int * msg.height as int
}

/// Whether the message sizes of a `width` by `height` `rgb8` image fit in a
/// `u32`, as the message's `step` and its byte count must.
pub open spec fn rgb8_size_fits(width: u32, height: u32) -> bool {
    &&& 3 * width <= u32::MAX
    &&& 3 * width * height <= u32::MAX
}

/// The `rgb8` image message of `img`, stamped with `stamp`.
pub fn image_msg_from(img: Picture, stamp: Time) -> (msg: Image)
    requires
        rgb8_size_fits(img.spec_width(), img.spec_height()),
    ensures
        is_rgb8_message_of(msg, img.spec_width(), img.spec_height(), img.spec_pixels(), stamp),
{
    let img_sz = img.dimensions();
    let width = img_sz.0;
    let height = img_sz.1;
    let step = width * 3;
    let size = (step * height) as usize;
    let mut data: Vec<u8> = Vec::new();
    data.resize(size, 0);
    assert(width as int * height as int <= 3 * width as int * height as int) by (nonlinear_arith);
    let count = width * height;
    let n = img.pixels.len();
    let ghost pixels = img.spec_pixels();
    assert(n == width as int * height as int);
    assert(3 * (width as int * height as int) == step as int * height as int) by (nonlinear_arith)
        requires
            step == width * 3,
    ;
    let mut i: usize = 0;
    while i < n
        invariant
            n == pixels.len(),
            n == count,
            3 * n <= u32::MAX,
            i <= n,
            pixels == img.spec_pixels(),
            data@.len() == 3 * n,
            forall|k: int| 0 <= k < 3 * i ==> data@[k] == #[trigger] rgb8_bytes(pixels)[k],
            forall|k: int| 3 * i <= k < 3 * n ==> data@[k] == 0,
        ensures
            i == n,
        decreases n - i,
    {
        assert(i as u32 == i);
        if i as u32 >= count {
            break;
        }
        let pixel = img.pixel(i);
        data.set(i * 3, pixel[0]);
        data.set(i * 3 + 1, pixel[1]);
        data.set(i * 3 + 2, pixel[2]);
        proof {
            assert forall|k: int| 0 <= k < 3 * (i + 1) implies data@[k]
                == #[trigger] rgb8_bytes(pixels)[k] by {
                if k >= 3 * i {
                    assert(k / 3 == i);
                }
            }
        }
        i = i + 1;
    }
    assert(data@ =~= rgb8_bytes(pixels));
    Image {
        header: Header { seq: 0, stamp, frame_id: "todo".to_owned() },
        height,
        width,
        encoding: "rgb8".to_owned(),
        is_bigendian: 0,
        step,
        data,
    }
}

/// The `rgb8` image message of `img`, stamped with the current time of the
/// ROS node.
pub fn to_image_msg(img: Picture, clock: &RosClock) -> (msg: Image)
    requires
        rgb8_size_fits(img.spec_width(), img.spec_height()),
    ensures
        exists|stamp: Time|
            is_rgb8_message_of(msg, img.spec_width(), img.spec_height(), img.spec_pixels(), stamp),
{
    let stamp = clock.now();
    image_msg_from(img, stamp)
}

} // verus!
