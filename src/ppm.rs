//! PPM encoding of a quantized image: the `P3` text form, one `r g b` line per
//! pixel, and the `P6` binary form, three packed bytes per pixel. Both start
//! with a header that gives the width, the height and the largest channel
//! value, 255.

use vstd::prelude::*;

verus! {

/// An 8-bit colour: red, green, blue.
pub type Rgb8 = (u8, u8, u8);

/// The decimal digits of `n`, most significant first, in ASCII.
pub open spec fn decimal(n: nat) -> Seq<u8>
    decreases n,
{
    if n < 10 {
        seq![(48 + n) as u8]
    } else {
        decimal(n / 10) + seq![(48 + n % 10) as u8]
    }
}

/// The decimal text of an integer, with a leading `-` when it is negative.
pub open spec fn signed_decimal(n: int) -> Seq<u8> {
    if n < 0 {
        seq![45u8] + decimal((-n) as nat)
    } else {
        decimal(n as nat)
    }
}

/// The header: `P` and the form's digit, then the width and the height, then
/// the largest channel value, each on a line of its own.
pub open spec fn header(form: u8, width: int, height: int) -> Seq<u8> {
    seq![80u8, form, 10u8] + signed_decimal(width) + seq![32u8] + signed_decimal(height) + seq![
        10u8,
        50u8,
        53u8,
        53u8,
        10u8,
    ]
}

/// One pixel of the text form: its three channels in decimal, separated by
/// spaces, and a line break.
pub open spec fn text_line(p: Rgb8) -> Seq<u8> {
    decimal(p.0 as nat) + seq![32u8] + decimal(p.1 as nat) + seq![32u8] + decimal(p.2 as nat)
        + seq![10u8]
}

/// The pixels of the text form, in order.
pub open spec fn text_body(pixels: Seq<Rgb8>) -> Seq<u8>
    decreases pixels.len(),
{
    if pixels.len() == 0 {
        seq![]
    } else {
        text_body(pixels.drop_last()) + text_line(pixels.last())
    }
}

/// The pixels of the binary form: the channels of each, in order.
pub open spec fn binary_body(pixels: Seq<Rgb8>) -> Seq<u8>
    decreases pixels.len(),
{
    if pixels.len() == 0 {
        seq![]
    } else {
        binary_body(pixels.drop_last()) + seq![pixels.last().0, pixels.last().1, pixels.last().2]
    }
}

/// Red, green or blue of a pixel, by channel number 0, 1 or 2.
pub open spec fn channel(p: Rgb8, c: int) -> u8 {
    if c == 0 {
        p.0
    } else if c == 1 {
        p.1
    } else {
        p.2
    }
}

/// The binary form gives each pixel three bytes, in the order of the pixels:
/// byte `3 * k + c` is channel `c` of pixel `k`.
pub proof fn lemma_binary_body_layout(pixels: Seq<Rgb8>)
    ensures
        binary_body(pixels).len() == 3 * pixels.len(),
        forall|k: int, c: int|
            0 <= k < pixels.len() && 0 <= c < 3 ==> #[trigger] binary_body(pixels)[3 * k + c]
                == channel(#[trigger] pixels[k], c),
    decreases pixels.len(),
{
    if pixels.len() > 0 {
        let init = pixels.drop_last();
        lemma_binary_body_layout(init);
        assert forall|k: int, c: int|
            0 <= k < pixels.len() && 0 <= c < 3 implies #[trigger] binary_body(pixels)[3 * k + c]
                == channel(#[trigger] pixels[k], c) by {
            if k < pixels.len() - 1 {
                assert(pixels[k] == init[k]);
                assert(binary_body(init)[3 * k + c] == channel(init[k], c));
            }
        }
    }
}

/// Appends the decimal digits of `n` to `out`.
fn push_decimal(out: &mut Vec<u8>, n: u64)
    ensures
        final(out)@ == old(out)@ + decimal(n as nat),
    decreases n,
{
    if n >= 10 {
        push_decimal(out, n / 10);
    }
    out.push(48u8 + (n % 10) as u8);
    assert(final(out)@ =~= old(out)@ + decimal(n as nat));
}

/// Appends the decimal text of `n`, with its sign, to `out`.
fn push_signed_decimal(out: &mut Vec<u8>, n: i32)
    ensures
        final(out)@ == old(out)@ + signed_decimal(n as int),
{
    let wide: i64 = n as i64;
    if wide < 0 {
        out.push(45u8);
        push_decimal(out, (-wide) as u64);
    } else {
        push_decimal(out, wide as u64);
    }
    assert(final(out)@ =~= old(out)@ + signed_decimal(n as int));
}

/// Appends the header of the form `form` (the digit `3` or `6`) to `out`.
fn push_header(out: &mut Vec<u8>, form: u8, image_width: i32, image_height: i32)
    ensures
        final(out)@ == old(out)@ + header(form, image_width as int, image_height as int),
{
    out.push(80u8);
    out.push(form);
    out.push(10u8);
    push_signed_decimal(out, image_width);
    out.push(32u8);
    push_signed_decimal(out, image_height);
    out.push(10u8);
    out.push(50u8);
    out.push(53u8);
    out.push(53u8);
    out.push(10u8);
    assert(final(out)@ =~= old(out)@ + header(form, image_width as int, image_height as int));
}

/// The image in the text form `P3`: the header, then one line `r g b` per
/// pixel, in the order given.
pub fn encode_ppm_ascii(pixels: &Vec<Rgb8>, image_width: i32, image_height: i32) -> (r: Vec<u8>)
    ensures
        r@ == header(51u8, image_width as int, image_height as int) + text_body(pixels@),
{
    let mut out: Vec<u8> = Vec::new();
    push_header(&mut out, 51u8, image_width, image_height);
    let ghost head = out@;
    let mut i: usize = 0;
    while i < pixels.len()
        invariant
            0 <= i <= pixels@.len(),
            head == header(51u8, image_width as int, image_height as int),
            out@ == head + text_body(pixels@.subrange(0, i as int)),
        decreases pixels@.len() - i,
    {
        let p = pixels[i];
        let ghost before = out@;
        push_decimal(&mut out, p.0 as u64);
        out.push(32u8);
        push_decimal(&mut out, p.1 as u64);
        out.push(32u8);
        push_decimal(&mut out, p.2 as u64);
        out.push(10u8);
        proof {
            let done = pixels@.subrange(0, i as int + 1);
            assert(done.drop_last() =~= pixels@.subrange(0, i as int));
            assert(done.last() == p);
            assert(out@ =~= before + text_line(p));
            assert(out@ =~= head + text_body(done));
        }
        i = i + 1;
    }
    assert(pixels@.subrange(0, pixels@.len() as int) =~= pixels@);
    out
}

/// The image in the binary form `P6`: the header, then the three channel
/// bytes of each pixel, in the order given.
pub fn encode_ppm_binary(pixels: &Vec<Rgb8>, image_width: i32, image_height: i32) -> (r: Vec<u8>)
    ensures
        r@ == header(54u8, image_width as int, image_height as int) + binary_body(pixels@),
{
    let mut out: Vec<u8> = Vec::new();
    push_header(&mut out, 54u8, image_width, image_height);
    let ghost head = out@;
    let mut i: usize = 0;
    while i < pixels.len()
        invariant
            0 <= i <= pixels@.len(),
            head == header(54u8, image_width as int, image_height as int),
            out@ == head + binary_body(pixels@.subrange(0, i as int)),
        decreases pixels@.len() - i,
    {
        let p = pixels[i];
        out.push(p.0);
        out.push(p.1);
        out.push(p.2);
        proof {
            let done = pixels@.subrange(0, i as int + 1);
            assert(done.drop_last() =~= pixels@.subrange(0, i as int));
            assert(done.last() == p);
            assert(out@ =~= head + binary_body(done));
        }
        i = i + 1;
    }
    assert(pixels@.subrange(0, pixels@.len() as int) =~= pixels@);
    out
}

} // verus!
