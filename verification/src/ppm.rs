//! The plain pixel map: a header, then one line of three channel values for
//! each pixel.

use crate::scalar::Scalar;
use crate::vec3::Color;
use vstd::prelude::*;
use vstd::string::StringExecFns;

verus! {

/// The pattern of 0.999, the most a channel may come to before it is scaled:
/// 0.999 * 256 is 255.744, so that the brightest channel is written as 255.
pub const CHANNEL_CEILING_BITS: u64 = 0x3FEF_F7CE_D916_872B;

/// The character of a decimal digit.
pub open spec fn digit(d: nat) -> char {
    if d == 0 {
        '0'
    } else if d == 1 {
        '1'
    } else if d == 2 {
        '2'
    } else if d == 3 {
        '3'
    } else if d == 4 {
        '4'
    } else if d == 5 {
        '5'
    } else if d == 6 {
        '6'
    } else if d == 7 {
        '7'
    } else if d == 8 {
        '8'
    } else {
        '9'
    }
}

/// A number written in decimal, without sign or leading zeros.
pub open spec fn decimal(n: nat) -> Seq<char>
    decreases n,
{
    if n < 10 {
        seq![digit(n)]
    } else {
        decimal(n / 10).push(digit(n % 10))
    }
}

/// The header of a pixel map of the given size: the magic word, the width and
/// the height, and the largest channel value, each line closed by a newline.
pub open spec fn header(width: nat, height: nat) -> Seq<char> {
    seq!['P', '3', '\n'] + decimal(width) + seq![' '] + decimal(height) + seq![
        '\n',
        '2',
        '5',
        '5',
        '\n',
    ]
}

/// A channel held between 0 and 0.999. A NaN is below nothing and above
/// nothing, and stays.
pub open spec fn clamped(x: Scalar) -> Scalar {
    if x.spec_lt(Scalar::spec_zero()) {
        Scalar::spec_zero()
    } else if (Scalar { bits: CHANNEL_CEILING_BITS }).spec_lt(x) {
        Scalar { bits: CHANNEL_CEILING_BITS }
    } else {
        x
    }
}

/// The value a channel is written as: the whole part of 256 times the
/// channel held between 0 and 0.999, and 0 for a NaN.
pub open spec fn channel_value(x: Scalar) -> nat {
    if x.spec_is_nan() {
        0
    } else {
        clamped(x).spec_whole(8, 255)
    }
}

/// The line of a pixel: its three channel values, set apart by spaces.
pub open spec fn pixel_line(c: Color) -> Seq<char> {
    decimal(channel_value(c.0[0])) + seq![' '] + decimal(channel_value(c.0[1])) + seq![' ']
        + decimal(channel_value(c.0[2])) + seq!['\n']
}

/// The one-character string of a decimal digit.
fn digit_str(d: u16) -> (s: &'static str)
    requires
        d < 10,
    ensures
        s@ == seq![digit(d as nat)],
{
    proof {
        reveal_strlit("0");
        reveal_strlit("1");
        reveal_strlit("2");
        reveal_strlit("3");
        reveal_strlit("4");
        reveal_strlit("5");
        reveal_strlit("6");
        reveal_strlit("7");
        reveal_strlit("8");
        reveal_strlit("9");
    }
    let s = if d == 0 {
        "0"
    } else if d == 1 {
        "1"
    } else if d == 2 {
        "2"
    } else if d == 3 {
        "3"
    } else if d == 4 {
        "4"
    } else if d == 5 {
        "5"
    } else if d == 6 {
        "6"
    } else if d == 7 {
        "7"
    } else if d == 8 {
        "8"
    } else {
        "9"
    };
    assert(s@ =~= seq![digit(d as nat)]);
    s
}

/// Appends a number in decimal.
fn push_decimal(out: &mut String, n: u16)
    ensures
        final(out)@ == old(out)@ + decimal(n as nat),
    decreases n,
{
    if n >= 10 {
        push_decimal(out, n / 10);
    }
    out.append(digit_str(n % 10));
    assert(out@ =~= old(out)@ + decimal(n as nat));
}

/// The value a channel is written as.
pub fn quantize(x: Scalar) -> (v: u8)
    ensures
        v == channel_value(x),
{
    if x.is_nan() {
        return 0;
    }
    let ceiling = Scalar::from_bits(CHANNEL_CEILING_BITS);
    let held = if x.lt(Scalar::zero()) {
        Scalar::zero()
    } else if ceiling.lt(x) {
        ceiling
    } else {
        x
    };
    let w: u64 = held.whole(8, 255);
    w as u8
}

/// A pixel map in the making: the text written so far.
pub struct Ppm(String);

impl View for Ppm {
    type V = Seq<char>;

    closed spec fn view(&self) -> Seq<char> {
        self.0@
    }
}

impl Ppm {
    /// A pixel map of the given size that holds no pixel yet.
    pub fn new(width: u16, height: u16) -> (ppm: Ppm)
        ensures
            ppm@ == header(width as nat, height as nat),
    {
        let mut text = String::new();
        proof {
            reveal_strlit("P3\n");
            reveal_strlit(" ");
            reveal_strlit("\n255\n");
        }
        text.append("P3\n");
        push_decimal(&mut text, width);
        text.append(" ");
        push_decimal(&mut text, height);
        text.append("\n255\n");
        assert(text@ =~= header(width as nat, height as nat));
        Ppm(text)
    }

    /// Appends text as it stands.
    pub fn push_str(&mut self, s: &String)
        ensures
            final(self)@ == old(self)@ + s@,
    {
        self.0.append(s.as_str());
    }

    /// Appends the line of a pixel. Each channel of `c` is the square root of
    /// the mean of the pixel's samples, as the host computed it.
    pub fn push_color(&mut self, c: &Color)
        ensures
            final(self)@ == old(self)@ + pixel_line(*c),
    {
        proof {
            reveal_strlit(" ");
            reveal_strlit("\n");
        }
        let r: u8 = quantize(c.0[0]);
        let g: u8 = quantize(c.0[1]);
        let b: u8 = quantize(c.0[2]);
        push_decimal(&mut self.0, r as u16);
        self.0.append(" ");
        push_decimal(&mut self.0, g as u16);
        self.0.append(" ");
        push_decimal(&mut self.0, b as u16);
        self.0.append("\n");
        assert(self.0@ =~= old(self).0@ + pixel_line(*c));
    }

    /// The text written so far.
    pub fn as_str(&self) -> (s: &str)
        ensures
            s@ == self@,
    {
        self.0.as_str()
    }
}

impl AsRef<[u8]> for Ppm {
    /// The text written so far, as bytes.
    fn as_ref(&self) -> (b: &[u8])
        ensures
            b@ == vstd::utf8::encode_utf8(self@),
    {
        self.0.as_str().as_bytes()
    }
}

} // verus!
