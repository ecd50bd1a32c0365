use vstd::prelude::*;

verus! {

/// Byte at `index` of the RGBA image (4 bytes per pixel, row by row) made from
/// the RGB samples `data`, whose rows start every `stride` bytes: a pixel whose
/// three samples lie within `data` is opaque, any other stays transparent black.
pub open spec fn rgba_byte(data: Seq<u8>, width: int, stride: int, index: int) -> u8 {
    let pixel = index / 4;
    let channel = index % 4;
    let x = pixel % width;
    let y = pixel / width;
    let at = y * stride + x * 3;
    if at + 2 < data.len() {
        if channel < 3 {
            data[at + channel]
        } else {
            255
        }
    } else {
        0
    }
}

/// The RGBA image, `width * height * 4` bytes, made from the RGB samples `data`.
pub open spec fn rgba_of(data: Seq<u8>, width: int, height: int, stride: int) -> Seq<u8> {
    Seq::new((width * height * 4) as nat, |index: int| rgba_byte(data, width, stride, index))
}

/// Pixel `(x, y)` of the converted image holds the three samples that start at
/// `y * stride + x * 3` and full opacity when all three lie within `data`, and
/// transparent black otherwise: a short buffer is never read past its end.
pub proof fn lemma_rgba_pixel(
    data: Seq<u8>,
    width: int,
    height: int,
    stride: int,
    x: int,
    y: int,
    channel: int,
)
    requires
        0 <= x < width,
        0 <= y < height,
        0 <= channel < 4,
        stride >= 0,
    ensures
        ({
            let img = rgba_of(data, width, height, stride);
            let index = (y * width + x) * 4 + channel;
            let at = y * stride + x * 3;
            &&& 0 <= index < img.len()
            &&& img[index] == if at + 2 < data.len() {
                if channel < 3 {
                    data[at + channel]
                } else {
                    255u8
                }
            } else {
                0u8
            }
        }),
{
    let pixel = y * width + x;
    let index = pixel * 4 + channel;
    vstd::arithmetic::div_mod::lemma_fundamental_div_mod_converse(index, 4, pixel, channel);
    vstd::arithmetic::div_mod::lemma_fundamental_div_mod_converse(pixel, width, y, x);
    assert(0 <= pixel < width * height) by (nonlinear_arith)
        requires
            0 <= x < width,
            0 <= y < height,
            pixel == y * width + x,
    ;
    assert(pixel == y * width + x);
    assert(y * width == width * y) by (nonlinear_arith);
}

/// Converts the RGB samples of a frame, `width` by `height` pixels whose rows
/// start every `stride` bytes, to RGBA. A pixel whose samples run past the end
/// of `data` is left transparent black: nothing is read out of bounds.
pub fn rgb_to_rgba(data: &[u8], width: u32, height: u32, stride: usize) -> (r: Vec<u8>)
    requires
        width * height * 4 <= usize::MAX,
    ensures
        r@ == rgba_of(data@, width as int, height as int, stride as int),
{
    let total: usize = (width as usize) * (height as usize) * 4;
    let w: usize = width as usize;
    let mut out: Vec<u8> = Vec::with_capacity(total);
    let mut index: usize = 0;
    while index < total
        invariant
            total == width * height * 4,
            w == width,
            index <= total,
            out@ =~= Seq::new(index as nat, |k: int| rgba_byte(data@, width as int, stride as int, k)),
        decreases total - index,
    {
        assert(w > 0) by (nonlinear_arith)
            requires
                index < total,
                total == w * height * 4,
        ;
        let pixel = index / 4;
        let channel = index % 4;
        let x = pixel % w;
        let y = pixel / w;
        let len = data.len();
        let mut byte: u8 = 0;
        if let Some(row) = y.checked_mul(stride) {
            if let Some(col) = x.checked_mul(3) {
                if let Some(at) = row.checked_add(col) {
                    if at < len && len - at > 2 {
                        byte = if channel < 3 { data[at + channel] } else { 255 };
                    }
                }
            }
        }
        assert(byte == rgba_byte(data@, width as int, stride as int, index as int));
        out.push(byte);
        index = index + 1;
    }
    out
}

} // verus!
