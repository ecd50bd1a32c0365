use vstd::prelude::*;

use crate::raster::{rgb_to_rgba, rgba_of};

verus! {

/// Width, in characters, of every rendered grid.
pub const GRID_COLUMNS: u32 = 100;

/// The symbols of a grid, from the sparsest ink to the densest.
pub open spec fn density_symbols() -> Seq<char> {
    seq!['.', ',', '-', '*', '\u{a3}', '$', '#']
}

/// What rascii_art renders for an RGBA image of `width` by `height` pixels,
/// `columns` characters wide, with the symbols `charset`, in reverse order
/// where `invert` holds.
pub uninterp spec fn ascii_art_of(
    width: u32,
    height: u32,
    rgba: Seq<u8>,
    columns: u32,
    charset: Seq<char>,
    invert: bool,
) -> Seq<char>;

/// `text` is a grid: one or more rows of `columns` symbols of `charset`,
/// each row but the last followed by a newline.
pub open spec fn is_grid(text: Seq<char>, columns: nat, charset: Seq<char>) -> bool {
    &&& text.len() >= columns
    &&& (text.len() + 1) % (columns + 1) == 0
    &&& forall|i: int|
        0 <= i < text.len() ==> if (i + 1) % (columns + 1) as int == 0 {
            #[trigger] text[i] == '\n'
        } else {
            charset.contains(text[i])
        }
}

/// The frames that can be rendered `columns` characters wide: the image
/// crate sums the pixels of each sampled block in `u32`, which bounds the
/// pixels per grid cell, and the grid is at most a million rows.
pub open spec fn renderable(width: int, height: int, columns: int) -> bool {
    &&& width > 0
    &&& height > 0
    &&& columns > 0
    &&& width * height <= columns * 2_000_000
    &&& columns * height <= 2_000_000 * width
}

/// Relies on rascii_art::render_image_to (with image::RgbaImage::from_raw to
/// hold the pixels): the text depends on the pixels and the options alone,
/// it is always produced for a buffer of `width * height * 4` bytes, and it
/// is a grid `columns` symbols wide over `charset`.
#[verifier::external_body]
fn render_ascii(
    rgba: Vec<u8>,
    width: u32,
    height: u32,
    columns: u32,
    charset: &[char],
    invert: bool,
) -> (r: Option<String>)
    requires
        renderable(width as int, height as int, columns as int),
        charset@.len() > 0,
        rgba@.len() == width * height * 4,
    ensures
        r is Some,
        r.unwrap()@ == ascii_art_of(width, height, rgba@, columns, charset@, invert),
        is_grid(r.unwrap()@, columns as nat, charset@),
{
    let symbols: Vec<String> = charset.iter().map(|c| c.to_string()).collect();
    let symbols: Vec<&str> = symbols.iter().map(|s| s.as_str()).collect();
    let image = image::DynamicImage::ImageRgba8(image::RgbaImage::from_raw(width, height, rgba)?);
    let options =
        rascii_art::RenderOptions::new().width(columns).charset(&symbols).invert(invert);
    let mut text = String::new();
    rascii_art::render_image_to(&image, &mut text, &options).ok()?;
    Some(text)
}

/// The grid rendered from an RGBA image: `GRID_COLUMNS` wide, brighter
/// pixels taking sparser symbols.
pub open spec fn image_ascii(rgba: Seq<u8>, width: u32, height: u32) -> Seq<char> {
    ascii_art_of(width, height, rgba, GRID_COLUMNS, density_symbols(), true)
}

/// The grid rendered from an RGB frame.
pub open spec fn frame_ascii(data: Seq<u8>, width: u32, height: u32, stride: usize) -> Seq<char> {
    image_ascii(rgba_of(data, width as int, height as int, stride as int), width, height)
}

/// Whether a frame of `width` by `height` pixels can be rendered.
pub fn frame_is_renderable(width: u32, height: u32) -> (r: bool)
    ensures
        r == renderable(width as int, height as int, GRID_COLUMNS as int),
{
    assert((width as int) * (height as int) <= u32::MAX as int * u32::MAX as int) by (nonlinear_arith)
        requires
            width <= u32::MAX,
            height <= u32::MAX,
    ;
    assert(100 * (height as int) <= 100 * u32::MAX as int);
    let area: u128 = (width as u128) * (height as u128);
    let tall: u128 = (GRID_COLUMNS as u128) * (height as u128);
    width > 0 && height > 0 && area <= (GRID_COLUMNS as u128) * 2_000_000 && tall <= 2_000_000
        * (width as u128)
}

/// Renders an RGBA image (`width * height * 4` bytes) as a grid of
/// `GRID_COLUMNS` columns over the density symbols, brighter pixels taking
/// sparser symbols.
pub fn rgba_to_ascii(rgba: Vec<u8>, width: u32, height: u32) -> (r: String)
    requires
        renderable(width as int, height as int, GRID_COLUMNS as int),
        rgba@.len() == width * height * 4,
    ensures
        r@ == image_ascii(rgba@, width, height),
        is_grid(r@, GRID_COLUMNS as nat, density_symbols()),
{
    let charset: Vec<char> = vec!['.', ',', '-', '*', '\u{a3}', '$', '#'];
    assert(charset@ =~= density_symbols());
    let text = render_ascii(rgba, width, height, GRID_COLUMNS, charset.as_slice(), true);
    text.unwrap()
}

/// Renders an RGB frame (`width` by `height` pixels, rows every `stride`
/// bytes) as a grid of `GRID_COLUMNS` columns over the density symbols.
pub fn frame_to_ascii(data: &[u8], width: u32, height: u32, stride: usize) -> (r: String)
    requires
        renderable(width as int, height as int, GRID_COLUMNS as int),
    ensures
        r@ == frame_ascii(data@, width, height, stride),
        is_grid(r@, GRID_COLUMNS as nat, density_symbols()),
{
    assert(width * height * 4 <= usize::MAX) by (nonlinear_arith)
        requires
            width * height <= GRID_COLUMNS * 2_000_000,
    ;
    let rgba = rgb_to_rgba(data, width, height, stride);
    rgba_to_ascii(rgba, width, height)
}

/// Rendering depends on the frame alone: the same frame gives the same grid.
pub proof fn lemma_render_deterministic(
    a: Seq<u8>,
    b: Seq<u8>,
    width: u32,
    height: u32,
    stride: usize,
)
    requires
        a == b,
    ensures
        frame_ascii(a, width, height, stride) == frame_ascii(b, width, height, stride),
{
}

} // verus!
