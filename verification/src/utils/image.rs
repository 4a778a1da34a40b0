//! The image writer: it turns image dimensions and pixel colours into the
//! text of a plain PPM file, line by line and in the order it is given them.
//! What it writes is plain PPM whatever the file is called; the format that
//! the file's name asks for is told and kept, and decides nothing.
//!
//! The writer owns its sink, a byte buffer. Whoever drives it empties the sink
//! with [`Image::take_pending`] and sends the bytes on.

use crate::utils::decimal::{decimal, push_decimal};
use vstd::prelude::*;

verus! {

/// The ASCII code of the space between two numbers on a line.
pub const SPACE: u8 = 0x20;

/// The ASCII code of the line feed that ends each line.
pub const LINE_FEED: u8 = 0x0a;

/// The largest value of a colour channel, announced in the header.
pub const CHANNEL_MAX: u8 = 255;

/// A colour as it is written: one byte for each channel.
#[derive(Clone, Copy, Debug, PartialEq, Eq, Structural)]
pub struct Rgb {
    pub r: u8,
    pub g: u8,
    pub b: u8,
}

/// The file format that a file name asks for.
#[derive(Clone, Copy, Debug, PartialEq, Eq, Structural)]
pub enum ImageType {
    Invalid,
    JPEG,
    PNG,
    PPM,
}

/// The part of `name` after its last dot, or all of `name` where it holds no
/// dot.
pub open spec fn last_segment(name: Seq<char>) -> Seq<char>
    decreases name.len(),
{
    if name.len() == 0 {
        name
    } else if name.last() == '.' {
        Seq::empty()
    } else {
        last_segment(name.drop_last()).push(name.last())
    }
}

/// What `last_segment` picks: the longest tail of `name` without a dot. It
/// starts right after a dot or at the start of `name`.
pub proof fn last_segment_follows_last_dot(name: Seq<char>)
    ensures
        last_segment(name).len() <= name.len(),
        last_segment(name) == name.subrange(
            name.len() - last_segment(name).len(),
            name.len() as int,
        ),
        forall|i: int| 0 <= i < last_segment(name).len() ==> #[trigger] last_segment(name)[i] != '.',
        last_segment(name).len() < name.len() ==> name[name.len() - last_segment(name).len() - 1]
            == '.',
    decreases name.len(),
{
    if name.len() > 0 && name.last() != '.' {
        last_segment_follows_last_dot(name.drop_last());
    }
    assert(last_segment(name) =~= name.subrange(
        name.len() - last_segment(name).len(),
        name.len() as int,
    ));
}

impl ImageType {
    /// The format that the extension `ext` names. The match is exact: upper
    /// case letters name no format.
    pub open spec fn of_extension(ext: Seq<char>) -> ImageType {
        if ext == seq!['j', 'p', 'e', 'g'] || ext == seq!['j', 'p', 'g'] {
            ImageType::JPEG
        } else if ext == seq!['p', 'n', 'g'] {
            ImageType::PNG
        } else if ext == seq!['p', 'p', 'm'] {
            ImageType::PPM
        } else {
            ImageType::Invalid
        }
    }

    /// The format that the file name `name` asks for: the one that its last
    /// segment names.
    pub open spec fn of_filename(name: Seq<char>) -> ImageType {
        ImageType::of_extension(last_segment(name))
    }

    /// Tells the format from the file name.
    pub fn from_filename(filename: &str) -> (kind: ImageType)
        ensures
            kind == ImageType::of_filename(filename@),
    {
        let mut ext: Vec<char> = Vec::new();
        for c in it: filename.chars()
            invariant
                it.seq() == filename@,
                ext@ == last_segment(filename@.take(it.index())),
        {
            proof {
                let seen = filename@.take(it.index() + 1);
                assert(seen.drop_last() =~= filename@.take(it.index()));
                assert(seen.last() == c);
            }
            if c == '.' {
                ext.clear();
            } else {
                ext.push(c);
            }
        }
        assert(filename@.take(filename@.len() as int) =~= filename@);
        if ext.len() == 4 {
            if ext[0] == 'j' && ext[1] == 'p' && ext[2] == 'e' && ext[3] == 'g' {
                assert(ext@ =~= seq!['j', 'p', 'e', 'g']);
                ImageType::JPEG
            } else {
                ImageType::Invalid
            }
        } else if ext.len() == 3 {
            if ext[0] == 'j' && ext[1] == 'p' && ext[2] == 'g' {
                assert(ext@ =~= seq!['j', 'p', 'g']);
                ImageType::JPEG
            } else if ext[0] == 'p' && ext[1] == 'n' && ext[2] == 'g' {
                assert(ext@ =~= seq!['p', 'n', 'g']);
                ImageType::PNG
            } else if ext[0] == 'p' && ext[1] == 'p' && ext[2] == 'm' {
                assert(ext@ =~= seq!['p', 'p', 'm']);
                ImageType::PPM
            } else {
                ImageType::Invalid
            }
        } else {
            ImageType::Invalid
        }
    }
}

/// The height of an image that was asked for with `height` rows: an image has
/// at least one row.
pub open spec fn at_least_one_row(height: u32) -> u32 {
    if height == 0 {
        1
    } else {
        height
    }
}

/// The first line of a plain PPM file, its magic number: the letter `P` and
/// the digit `3`.
pub open spec fn magic_line() -> Seq<u8> {
    seq![0x50u8, 0x33u8, LINE_FEED]
}

/// The header of an image file, three lines: the magic number, then width
/// and height, then the largest channel value.
pub open spec fn header_text(width: u32, height: u32) -> Seq<u8> {
    magic_line() + decimal(width as nat) + seq![SPACE] + decimal(height as nat) + seq![LINE_FEED]
        + decimal(CHANNEL_MAX as nat) + seq![LINE_FEED]
}

/// The text of one pixel: one line with the three channels in the order red,
/// green, blue.
pub open spec fn pixel_text(color: Rgb) -> Seq<u8> {
    decimal(color.r as nat) + seq![SPACE] + decimal(color.g as nat) + seq![SPACE] + decimal(
        color.b as nat,
    ) + seq![LINE_FEED]
}

/// The text of a run of pixels: the text of each, in the order given.
pub open spec fn body_text(colors: Seq<Rgb>) -> Seq<u8>
    decreases colors.len(),
{
    if colors.len() == 0 {
        Seq::empty()
    } else {
        body_text(colors.drop_last()) + pixel_text(colors.last())
    }
}

/// The text of a whole file: the header, then the pixels.
pub open spec fn file_text(width: u32, height: u32, colors: Seq<Rgb>) -> Seq<u8> {
    header_text(width, height) + body_text(colors)
}

/// The number of lines in `text`: the number of line feeds.
pub open spec fn line_count(text: Seq<u8>) -> nat
    decreases text.len(),
{
    if text.len() == 0 {
        0
    } else if text.last() == LINE_FEED {
        line_count(text.drop_last()) + 1
    } else {
        line_count(text.drop_last())
    }
}

/// The lines of two texts put together are those of the one and those of the
/// other.
pub proof fn line_count_of_joined(first: Seq<u8>, second: Seq<u8>)
    ensures
        line_count(first + second) == line_count(first) + line_count(second),
    decreases second.len(),
{
    if second.len() == 0 {
        assert(first + second =~= first);
    } else {
        line_count_of_joined(first, second.drop_last());
        assert((first + second).drop_last() =~= first + second.drop_last());
    }
}

/// A number's decimal text holds no line feed.
pub proof fn decimal_has_no_line(n: nat)
    ensures
        line_count(decimal(n)) == 0,
    decreases n,
{
    reveal_with_fuel(line_count, 2);
    if n < 10 {
        assert(decimal(n).drop_last() =~= Seq::<u8>::empty());
    } else {
        decimal_has_no_line(n / 10);
        assert(decimal(n).drop_last() =~= decimal(n / 10));
    }
}

/// The header has three lines, whatever the dimensions.
pub proof fn header_line_count(width: u32, height: u32)
    ensures
        line_count(header_text(width, height)) == 3,
{
    let a = magic_line();
    let b = a + decimal(width as nat);
    let c = b + seq![SPACE];
    let d = c + decimal(height as nat);
    let e = d + seq![LINE_FEED];
    let f = e + decimal(CHANNEL_MAX as nat);
    reveal_with_fuel(line_count, 4);
    assert(line_count(a) == 1) by {
        assert(a.drop_last() =~= seq![0x50u8, 0x33u8]);
        assert(a.drop_last().drop_last() =~= seq![0x50u8]);
        assert(a.drop_last().drop_last().drop_last() =~= Seq::<u8>::empty());
    }
    assert(line_count(seq![SPACE]) == 0);
    assert(line_count(seq![LINE_FEED]) == 1);
    decimal_has_no_line(width as nat);
    decimal_has_no_line(height as nat);
    decimal_has_no_line(CHANNEL_MAX as nat);
    line_count_of_joined(a, decimal(width as nat));
    line_count_of_joined(b, seq![SPACE]);
    line_count_of_joined(c, decimal(height as nat));
    line_count_of_joined(d, seq![LINE_FEED]);
    line_count_of_joined(e, decimal(CHANNEL_MAX as nat));
    line_count_of_joined(f, seq![LINE_FEED]);
}

/// A pixel takes one line, whatever its colour.
pub proof fn pixel_line_count(color: Rgb)
    ensures
        line_count(pixel_text(color)) == 1,
{
    let a = decimal(color.r as nat);
    let b = a + seq![SPACE];
    let c = b + decimal(color.g as nat);
    let d = c + seq![SPACE];
    let e = d + decimal(color.b as nat);
    reveal_with_fuel(line_count, 2);
    assert(line_count(seq![SPACE]) == 0);
    assert(line_count(seq![LINE_FEED]) == 1);
    decimal_has_no_line(color.r as nat);
    decimal_has_no_line(color.g as nat);
    decimal_has_no_line(color.b as nat);
    line_count_of_joined(a, seq![SPACE]);
    line_count_of_joined(b, decimal(color.g as nat));
    line_count_of_joined(c, seq![SPACE]);
    line_count_of_joined(d, decimal(color.b as nat));
    line_count_of_joined(e, seq![LINE_FEED]);
}

/// Writing one more pixel adds that pixel's text at the end of the file and
/// changes nothing before it.
pub proof fn file_text_grows(width: u32, height: u32, colors: Seq<Rgb>, color: Rgb)
    ensures
        file_text(width, height, colors.push(color)) == file_text(width, height, colors)
            + pixel_text(color),
{
    assert(colors.push(color).drop_last() =~= colors);
    assert(file_text(width, height, colors.push(color)) =~= file_text(width, height, colors)
        + pixel_text(color));
}

/// The pixels take one line each, whatever the colours are.
pub proof fn body_line_count(colors: Seq<Rgb>)
    ensures
        line_count(body_text(colors)) == colors.len(),
    decreases colors.len(),
{
    if colors.len() > 0 {
        body_line_count(colors.drop_last());
        pixel_line_count(colors.last());
        line_count_of_joined(body_text(colors.drop_last()), pixel_text(colors.last()));
    }
}

/// A file has three header lines and then one line for each pixel, whatever
/// the colours are.
pub proof fn file_line_count(width: u32, height: u32, colors: Seq<Rgb>)
    ensures
        line_count(file_text(width, height, colors)) == 3 + colors.len(),
{
    header_line_count(width, height);
    body_line_count(colors);
    line_count_of_joined(header_text(width, height), body_text(colors));
}

/// What an image being written is, to its callers.
pub struct ImageView {
    /// The width in pixels.
    pub width: u32,
    /// The height in pixels.
    pub height: u32,
    /// The format that the file's name asks for. It decides nothing of what
    /// is written.
    pub kind: ImageType,
    /// The bytes that were written and not taken yet, oldest first.
    pub pending: Seq<u8>,
}

/// An image being written.
pub struct Image {
    pub width: u32,
    pub height: u32,
    image_type: ImageType,
    sink: Vec<u8>,
}

impl View for Image {
    type V = ImageView;

    closed spec fn view(&self) -> ImageView {
        ImageView {
            width: self.width,
            height: self.height,
            kind: self.image_type,
            pending: self.sink@,
        }
    }
}

impl Image {
    /// Starts an image `width` pixels wide and `height` pixels high; a height
    /// of zero, as the division of a small width by the aspect ratio may
    /// give, is raised to one row. The header is written at once, whatever
    /// `filename` is; the format that the name asks for is kept beside it.
    pub fn new(width: u32, height: u32, filename: &str) -> (image: Image)
        ensures
            image@.width == width,
            image@.height == at_least_one_row(height),
            image@.kind == ImageType::of_filename(filename@),
            image@.pending == header_text(width, at_least_one_row(height)),
    {
        let height: u32 = match height {
            0 => 1,
            rows => rows,
        };
        let image_type = ImageType::from_filename(filename);
        let mut image = Image { width, height, image_type, sink: Vec::new() };
        image.init_file();
        image
    }

    /// The width of the image in pixels.
    pub fn width(&self) -> (width: u32)
        ensures
            width == self@.width,
    {
        self.width
    }

    /// The height of the image in pixels.
    pub fn height(&self) -> (height: u32)
        ensures
            height == self@.height,
    {
        self.height
    }

    /// The format that the name of the image's file asks for.
    pub fn image_type(&self) -> (kind: ImageType)
        ensures
            kind == self@.kind,
    {
        self.image_type
    }

    /// Writes the header for the image's present width and height.
    pub fn init_file(&mut self)
        ensures
            final(self)@ == (ImageView {
                pending: old(self)@.pending + header_text(old(self)@.width, old(self)@.height),
                ..old(self)@
            }),
    {
        self.sink.push(0x50);
        self.sink.push(0x33);
        self.sink.push(LINE_FEED);
        push_decimal(&mut self.sink, self.width);
        self.sink.push(SPACE);
        push_decimal(&mut self.sink, self.height);
        self.sink.push(LINE_FEED);
        push_decimal(&mut self.sink, CHANNEL_MAX as u32);
        self.sink.push(LINE_FEED);
        assert(self.sink@ =~= old(self).sink@ + header_text(self.width, self.height));
    }

    /// Writes one pixel.
    pub fn write_pixel(&mut self, color: Rgb)
        ensures
            final(self)@ == (ImageView {
                pending: old(self)@.pending + pixel_text(color),
                ..old(self)@
            }),
    {
        push_decimal(&mut self.sink, color.r as u32);
        self.sink.push(SPACE);
        push_decimal(&mut self.sink, color.g as u32);
        self.sink.push(SPACE);
        push_decimal(&mut self.sink, color.b as u32);
        self.sink.push(LINE_FEED);
        assert(self.sink@ =~= old(self).sink@ + pixel_text(color));
    }

    /// Empties the sink and hands its bytes to the caller.
    pub fn take_pending(&mut self) -> (bytes: Vec<u8>)
        ensures
            bytes@ == old(self)@.pending,
            final(self)@ == (ImageView { pending: Seq::empty(), ..old(self)@ }),
    {
        let mut bytes: Vec<u8> = Vec::new();
        core::mem::swap(&mut bytes, &mut self.sink);
        bytes
    }
}

} // verus!
