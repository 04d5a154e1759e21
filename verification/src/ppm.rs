//! A bilevel image held as explicit pixels, and its binary PPM ("P6")
//! serialization to bytes; with builders for simple test images described as
//! runs of one color.
use vstd::prelude::*;

verus! {

/// A black-or-white pixel.
#[derive(Copy, Clone, Debug, PartialEq, Eq, Structural)]
pub enum BW {
    B,
    W,
}

/// An image of `height` rows of `width` black-or-white pixels each, stored
/// row by row.
pub struct PPM {
    pub height: u32,
    pub width: u32,
    pub data: Vec<BW>,
}

/// The decimal digits of `n`, most significant first, as ASCII bytes.
pub open spec fn dec_digits(n: nat) -> Seq<u8>
    decreases n,
{
    if n < 10 {
        seq![(48 + n) as u8]
    } else {
        dec_digits(n / 10).push((48 + n % 10) as u8)
    }
}

/// Append the decimal digits of `n` as ASCII bytes.
fn push_decimal(n: u32, out: &mut Vec<u8>)
    ensures
        final(out)@ == old(out)@ + dec_digits(n as nat),
    decreases n,
{
    if n < 10 {
        out.push((48 + n) as u8);
        proof {
            assert(out@ =~= old(out)@ + dec_digits(n as nat));
        }
    } else {
        push_decimal(n / 10, out);
        out.push((48 + n % 10) as u8);
        proof {
            assert(out@ =~= old(out)@ + dec_digits(n as nat));
        }
    }
}

/// The three RGB bytes of one pixel: black or white.
pub open spec fn bw_bytes(v: BW) -> Seq<u8> {
    match v {
        BW::B => seq![0u8, 0u8, 0u8],
        BW::W => seq![255u8, 255u8, 255u8],
    }
}

/// The RGB bytes of a pixel row sequence.
pub open spec fn pixels_bytes(data: Seq<BW>) -> Seq<u8>
    decreases data.len(),
{
    if data.len() == 0 {
        Seq::empty()
    } else {
        bw_bytes(data[0]) + pixels_bytes(data.skip(1))
    }
}

/// The PPM "P6" header: magic, width, height and the maximum sample value.
pub open spec fn header_bytes(width: nat, height: nat) -> Seq<u8> {
    seq![80u8, 54u8, 32u8] + dec_digits(width) + seq![32u8] + dec_digits(height) + seq![
        32u8,
        50u8,
        53u8,
        53u8,
        10u8,
    ]
}

impl PPM {
    /// The pixel count matches the declared dimensions.
    pub open spec fn wf(&self) -> bool {
        self.data@.len() == self.height * self.width
    }

    /// The index of pixel (`x`, `y`) in the stored data, or nothing when the
    /// pixel lies outside the image.
    pub open spec fn spec_offset(&self, x: u32, y: u32) -> Option<int> {
        if x < self.width && y < self.height {
            Some(y * self.width + x)
        } else {
            None
        }
    }

    /// An all-white image of the given dimensions.
    pub fn new(height: u32, width: u32) -> (r: PPM)
        requires
            height * width <= u32::MAX,
        ensures
            r.height == height,
            r.width == width,
            r.data@ == Seq::new((height * width) as nat, |i: int| BW::W),
            r.wf(),
    {
        let size: u32 = height * width;
        let mut data: Vec<BW> = Vec::new();
        let mut i: u32 = 0;
        while i < size
            invariant
                i <= size,
                data@ == Seq::new(i as nat, |j: int| BW::W),
            decreases size - i,
        {
            data.push(BW::W);
            proof {
                assert(data@ =~= Seq::new((i + 1) as nat, |j: int| BW::W));
            }
            i = i + 1;
        }
        PPM { height, width, data }
    }

    /// An image over the given pixels, whose count must match the dimensions.
    pub fn from_data(height: u32, width: u32, data: Vec<BW>) -> (r: PPM)
        requires
            height * width <= u32::MAX,
            data@.len() == height * width,
        ensures
            r.height == height,
            r.width == width,
            r.data@ == data@,
            r.wf(),
    {
        PPM { height, width, data }
    }

    /// The index of pixel (`x`, `y`) in the stored data, or nothing when the
    /// pixel lies outside the image.
    fn get_offset(&self, x: u32, y: u32) -> (r: Option<usize>)
        requires
            self.wf(),
        ensures
            match self.spec_offset(x, y) {
                Some(o) => r == Some(o as usize) && 0 <= o <= usize::MAX && o < self.data@.len(),
                None => r == None::<usize>,
            },
    {
        if x < self.width && y < self.height {
            proof {
                assert(y * self.width + x < self.height * self.width) by (nonlinear_arith)
                    requires
                        x < self.width,
                        y < self.height,
                ;
            }
            // materializing the length bounds the pixel count by usize::MAX
            let _len: usize = self.data.len();
            Some((y as usize) * (self.width as usize) + (x as usize))
        } else {
            None
        }
    }

    /// The pixel at (`x`, `y`), or nothing when it lies outside the image.
    pub fn get_pixel(&self, x: u32, y: u32) -> (r: Option<BW>)
        requires
            self.wf(),
        ensures
            r == (match self.spec_offset(x, y) {
                Some(o) => Some(self.data@[o]),
                None => None::<BW>,
            }),
    {
        match self.get_offset(x, y) {
            Some(o) => Some(self.data[o]),
            None => None,
        }
    }

    /// Set the pixel at (`x`, `y`); reports whether it lay inside the image.
    pub fn set_pixel(&mut self, x: u32, y: u32, color: BW) -> (r: bool)
        requires
            old(self).wf(),
        ensures
            final(self).wf(),
            final(self).height == old(self).height,
            final(self).width == old(self).width,
            r == (old(self).spec_offset(x, y) is Some),
            match old(self).spec_offset(x, y) {
                Some(o) => final(self).data@ == old(self).data@.update(o, color),
                None => final(self).data@ == old(self).data@,
            },
    {
        match self.get_offset(x, y) {
            Some(o) => {
                self.data.set(o, color);
                true
            },
            None => false,
        }
    }

    /// The bytes of the image as a binary PPM file: the "P6" header, then
    /// three RGB bytes per pixel, row by row.
    pub fn to_file_bytes(&self) -> (r: Vec<u8>)
        ensures
            r@ == header_bytes(self.width as nat, self.height as nat) + pixels_bytes(self.data@),
    {
        let mut file: Vec<u8> = Vec::new();
        file.push(80);
        file.push(54);
        file.push(32);
        push_decimal(self.width, &mut file);
        file.push(32);
        push_decimal(self.height, &mut file);
        file.push(32);
        file.push(50);
        file.push(53);
        file.push(53);
        file.push(10);
        proof {
            assert(file@ =~= header_bytes(self.width as nat, self.height as nat));
            assert(self.data@.skip(0) =~= self.data@);
        }
        let ghost header = file@;
        let mut i: usize = 0;
        while i < self.data.len()
            invariant
                i <= self.data@.len(),
                header == header_bytes(self.width as nat, self.height as nat),
                file@ + pixels_bytes(self.data@.skip(i as int)) == header + pixels_bytes(
                    self.data@,
                ),
            decreases self.data@.len() - i,
        {
            let ghost before = file@;
            match self.data[i] {
                BW::B => {
                    file.push(0);
                    file.push(0);
                    file.push(0);
                },
                BW::W => {
                    file.push(255);
                    file.push(255);
                    file.push(255);
                },
            }
            proof {
                assert(self.data@.skip(i as int).skip(1) =~= self.data@.skip(i as int + 1));
                assert(file@ =~= before + bw_bytes(self.data@[i as int]));
                assert(file@ + pixels_bytes(self.data@.skip(i as int + 1)) =~= before
                    + pixels_bytes(self.data@.skip(i as int)));
            }
            i = i + 1;
        }
        proof {
            assert(self.data@.skip(self.data@.len() as int) =~= Seq::<BW>::empty());
            assert(file@ + Seq::<u8>::empty() =~= file@);
        }
        file
    }
}

} // verus!
