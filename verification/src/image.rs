use vstd::prelude::*;

verus! {

/// One RGB pixel.
#[derive(Debug, Clone, Copy)]
pub struct Pixel {
    r: u8,
    g: u8,
    b: u8,
}

impl View for Pixel {
    type V = (u8, u8, u8);

    closed spec fn view(&self) -> (u8, u8, u8) {
        (self.r, self.g, self.b)
    }
}

impl Default for Pixel {
    /// A black pixel.
    fn default() -> (p: Self)
        ensures
            p@ == (0u8, 0u8, 0u8),
    {
        Pixel { r: 0, g: 0, b: 0 }
    }
}

impl Pixel {
    /// A pixel with the given red, green and blue components.
    pub fn new(r: u8, g: u8, b: u8) -> (p: Self)
        ensures
            p@ == (r, g, b),
    {
        Self { r, g, b }
    }

    /// The red, green and blue components.
    pub fn get_rgb(&self) -> (rgb: (u8, u8, u8))
        ensures
            rgb == self@,
    {
        (self.r, self.g, self.b)
    }
}


/// The pixel whose red, green and blue components are the three bytes of
/// `data` from `i` on.
pub closed spec fn pixel_at(data: Seq<u8>, i: int) -> Pixel {
    Pixel { r: data[i], g: data[i + 1], b: data[i + 2] }
}

/// The components of `pixel_at`.
pub proof fn lemma_pixel_at(data: Seq<u8>, i: int)
    ensures
        pixel_at(data, i)@ == (data[i], data[i + 1], data[i + 2]),
{
}

/// The offset of the pixel at column `x` and row `y` in a buffer of rows of
/// `width` pixels, three bytes each.
pub open spec fn pixel_offset(width: int, x: int, y: int) -> int {
    3 * (y * width + x)
}

/// A pixel inside a `width` by `height` image lies before the end of its rows.
proof fn lemma_cell_in_range(width: int, height: int, x: int, y: int)
    by (nonlinear_arith)
    requires
        0 <= x < width,
        0 <= y < height,
    ensures
        0 <= y * width + x < width * height,
        y * width >= 0,
{
}

/// Two different pixels of rows of `width` pixels lie at different places.
proof fn lemma_cell_distinct(width: int, x1: int, y1: int, x2: int, y2: int)
    requires
        0 <= x1 < width,
        0 <= x2 < width,
        0 <= y1,
        0 <= y2,
        x1 != x2 || y1 != y2,
    ensures
        y1 * width + x1 != y2 * width + x2,
{
    if y1 < y2 {
        assert((y1 + 1) * width <= y2 * width) by (nonlinear_arith)
            requires
                y1 + 1 <= y2,
                width > 0,
        ;
        assert((y1 + 1) * width == y1 * width + width) by (nonlinear_arith);
    } else if y2 < y1 {
        assert((y2 + 1) * width <= y1 * width) by (nonlinear_arith)
            requires
                y2 + 1 <= y1,
                width > 0,
        ;
        assert((y2 + 1) * width == y2 * width + width) by (nonlinear_arith);
    }
}

/// Pixels lie in the buffer in the order a PPM file lists them: the first
/// pixel of the first row at the start, each pixel three bytes after the one
/// to its left, and the first pixel of a row three bytes after the last
/// pixel of the row above.
pub proof fn law_pixel_order(width: int, x: int, y: int)
    requires
        width > 0,
        0 <= x < width,
        0 <= y,
    ensures
        pixel_offset(width, 0, 0) == 0,
        x + 1 < width ==> pixel_offset(width, x + 1, y) == pixel_offset(width, x, y) + 3,
        pixel_offset(width, 0, y + 1) == pixel_offset(width, width - 1, y) + 3,
{
    assert((y + 1) * width == y * width + width) by (nonlinear_arith);
}

/// The ASCII decimal digits of `n`, most significant first.
pub open spec fn decimal_digits(n: nat) -> Seq<u8>
    decreases n,
{
    if n < 10 {
        seq![(48 + n) as u8]
    } else {
        decimal_digits(n / 10).push((48 + n % 10) as u8)
    }
}

/// The number that a sequence of ASCII decimal digits writes.
pub open spec fn decimal_value(digits: Seq<u8>) -> int
    decreases digits.len(),
{
    if digits.len() == 0 {
        0
    } else {
        decimal_value(digits.drop_last()) * 10 + (digits.last() - 48)
    }
}

/// The decimal digits of a number write that number, and are digits.
pub proof fn law_decimal_round_trip(n: nat)
    ensures
        decimal_value(decimal_digits(n)) == n,
        forall|i: int|
            0 <= i < decimal_digits(n).len() ==> 48 <= #[trigger] decimal_digits(n)[i] <= 57,
    decreases n,
{
    if n < 10 {
        assert(decimal_digits(n).drop_last() =~= Seq::<u8>::empty());
        assert(decimal_value(decimal_digits(n).drop_last()) == 0);
    } else {
        law_decimal_round_trip(n / 10);
        assert(decimal_digits(n).drop_last() =~= decimal_digits(n / 10));
        assert(decimal_digits(n).last() == (48 + n % 10) as u8);
        assert(n == (n / 10) * 10 + n % 10);
    }
}

/// The header of a binary PPM image of the given size: `P6`, the width and
/// height in decimal, and the largest component value 255, each on its line.
pub open spec fn ppm_header(width: nat, height: nat) -> Seq<u8> {
    seq![80u8, 54u8, 10u8] + decimal_digits(width) + seq![32u8] + decimal_digits(height) + seq![
        10u8,
    ] + seq![50u8, 53u8, 53u8, 10u8]
}

/// The ASCII decimal digits of `n`.
pub fn decimal(n: usize) -> (d: Vec<u8>)
    ensures
        d@ == decimal_digits(n as nat),
    decreases n,
{
    if n < 10 {
        let mut d: Vec<u8> = Vec::new();
        d.push(48u8 + (n as u8));
        d
    } else {
        let mut d = decimal(n / 10);
        d.push(48u8 + ((n % 10) as u8));
        d
    }
}

/// An image: a buffer of `BUFFERSIZE` bytes holding rows of RGB pixels, the
/// file it is written to, and its width and height in pixels.
#[derive(Debug)]
pub struct Image<const BUFFERSIZE: usize> {
    image: Vec<u8>,
    path: String,
    dimensions: (usize, usize),
}

/// What an `Image` holds, as mathematical values.
pub struct ImageView {
    pub data: Seq<u8>,
    pub path: Seq<char>,
    pub width: usize,
    pub height: usize,
}

impl<const BUFFERSIZE: usize> View for Image<BUFFERSIZE> {
    type V = ImageView;

    closed spec fn view(&self) -> ImageView {
        ImageView {
            data: self.image@,
            path: self.path@,
            width: self.dimensions.0,
            height: self.dimensions.1,
        }
    }
}

impl<const BUFFERSIZE: usize> Image<BUFFERSIZE> {
    /// The buffer holds `BUFFERSIZE` bytes, as every image made by `new`
    /// does and every operation keeps.
    pub open spec fn well_formed(&self) -> bool {
        self@.data.len() == BUFFERSIZE
    }

    /// A black image of the given size, to be written to `file_name`.
    pub fn new(file_name: &str, width: usize, height: usize) -> (img: Self)
        ensures
            img.well_formed(),
            img@.data == Seq::new(BUFFERSIZE as nat, |i: int| 0u8),
            img@.path == file_name@,
            img@.width == width,
            img@.height == height,
    {
        let mut image: Vec<u8> = Vec::new();
        let mut i: usize = 0;
        while i < BUFFERSIZE
            invariant
                i <= BUFFERSIZE,
                image@ == Seq::new(i as nat, |k: int| 0u8),
            decreases BUFFERSIZE - i,
        {
            image.push(0u8);
            i += 1;
            assert(image@ =~= Seq::new(i as nat, |k: int| 0u8));
        }
        Self { image, path: file_name.to_owned(), dimensions: (width, height) }
    }

    /// The width and height of the image, in pixels.
    pub fn dimensions(&self) -> (d: (usize, usize))
        ensures
            d == (self@.width, self@.height),
    {
        self.dimensions
    }

    /// The file the image is written to.
    pub fn path(&self) -> (p: &str)
        ensures
            p@ == self@.path,
    {
        self.path.as_str()
    }

    /// Runs `f` on every pixel of the image, column by column, and puts what
    /// it returns in the pixel's place. `f` gets the pixel, its column and row,
    /// and the image's width and height. The pixels of all rows must lie in
    /// the buffer; the bytes after them are left as they are.
    pub fn apply_pixel_fn<F: Fn(Pixel, usize, usize, usize, usize) -> Pixel>(&mut self, f: &F)
        requires
            3 * old(self)@.width * old(self)@.height <= old(self)@.data.len(),
            forall|p: Pixel, x: usize, y: usize|
                x < old(self)@.width && y < old(self)@.height ==> #[trigger] f.requires(
                    (p, x, y, old(self)@.width, old(self)@.height),
                ),
        ensures
            final(self)@.width == old(self)@.width,
            final(self)@.height == old(self)@.height,
            final(self)@.path == old(self)@.path,
            final(self)@.data.len() == old(self)@.data.len(),
            forall|x: usize, y: usize|
                x < old(self)@.width && y < old(self)@.height ==> f.ensures(
                    (
                        pixel_at(
                            old(self)@.data,
                            #[trigger] pixel_offset(old(self)@.width as int, x as int, y as int),
                        ),
                        x,
                        y,
                        old(self)@.width,
                        old(self)@.height,
                    ),
                    pixel_at(
                        final(self)@.data,
                        pixel_offset(old(self)@.width as int, x as int, y as int),
                    ),
                ),
            forall|k: int|
                3 * old(self)@.width * old(self)@.height <= k < old(self)@.data.len()
                    ==> #[trigger] final(self)@.data[k] == old(self)@.data[k],
    {
        let (width, height) = self.dimensions;
        let ghost data0 = self.image@;
        let ghost w = width as int;
        let ghost h = height as int;
        proof {
            assert(3 * w * h == 3 * (w * h)) by (nonlinear_arith);
        }
        let mut x: usize = 0;
        while x < width
            invariant
                x <= width,
                width == self.dimensions.0,
                height == self.dimensions.1,
                w == width,
                h == height,
                self.path@ == old(self).path@,
                self.dimensions == old(self).dimensions,
                data0 == old(self).image@,
                self.image@.len() == data0.len(),
                3 * (w * h) <= data0.len(),
                forall|p: Pixel, x: usize, y: usize|
                    x < width && y < height ==> #[trigger] f.requires((p, x, y, width, height)),
                forall|a: usize, b: usize|
                    a < x && b < height ==> f.ensures(
                        (pixel_at(data0, #[trigger] pixel_offset(w, a as int, b as int)), a, b, width, height),
                        pixel_at(self.image@, pixel_offset(w, a as int, b as int)),
                    ),
                forall|a: usize, b: usize|
                    x <= a < width && b < height ==> {
                        let o = #[trigger] pixel_offset(w, a as int, b as int);
                        &&& self.image@[o] == data0[o]
                        &&& self.image@[o + 1] == data0[o + 1]
                        &&& self.image@[o + 2] == data0[o + 2]
                    },
                forall|k: int|
                    3 * (w * h) <= k < data0.len() ==> #[trigger] self.image@[k] == data0[k],
            decreases width - x,
        {
            let mut y: usize = 0;
            while y < height
                invariant
                    x < width,
                    y <= height,
                    width == self.dimensions.0,
                    height == self.dimensions.1,
                    w == width,
                    h == height,
                    self.path@ == old(self).path@,
                    self.dimensions == old(self).dimensions,
                    data0 == old(self).image@,
                    self.image@.len() == data0.len(),
                    3 * (w * h) <= data0.len(),
                    forall|p: Pixel, x: usize, y: usize|
                        x < width && y < height ==> #[trigger] f.requires((p, x, y, width, height)),
                    forall|a: usize, b: usize|
                        (a < x || (a == x && b < y)) && b < height ==> f.ensures(
                            (pixel_at(data0, #[trigger] pixel_offset(w, a as int, b as int)), a, b, width, height),
                            pixel_at(self.image@, pixel_offset(w, a as int, b as int)),
                        ),
                    forall|a: usize, b: usize|
                        (x < a || (a == x && y <= b)) && a < width && b < height ==> {
                            let o = #[trigger] pixel_offset(w, a as int, b as int);
                            &&& self.image@[o] == data0[o]
                            &&& self.image@[o + 1] == data0[o + 1]
                            &&& self.image@[o + 2] == data0[o + 2]
                        },
                    forall|k: int|
                        3 * (w * h) <= k < data0.len() ==> #[trigger] self.image@[k] == data0[k],
                decreases height - y,
            {
                let len = self.image.len();
                proof {
                    lemma_cell_in_range(w, h, x as int, y as int);
                    assert(y * width + x < len);
                }
                let cell = y * width + x;
                let o = cell * 3;
                let ghost go = pixel_offset(w, x as int, y as int);
                assert(o == go);
                let pixel = Pixel { r: self.image[o], g: self.image[o + 1], b: self.image[o + 2] };
                assert(pixel == pixel_at(data0, go));
                let shaded = f(pixel, x, y, width, height);
                let (r, g, b) = shaded.get_rgb();
                let ghost prev = self.image@;
                self.image.set(o, r);
                self.image.set(o + 1, g);
                self.image.set(o + 2, b);
                assert(pixel_at(self.image@, go) == shaded);
                assert forall|a: usize, b: usize|
                    a < width && b < height && (a != x || b != y) implies {
                        let oo = #[trigger] pixel_offset(w, a as int, b as int);
                        &&& self.image@[oo] == prev[oo]
                        &&& self.image@[oo + 1] == prev[oo + 1]
                        &&& self.image@[oo + 2] == prev[oo + 2]
                    } by {
                    lemma_cell_distinct(w, a as int, b as int, x as int, y as int);
                    lemma_cell_in_range(w, h, a as int, b as int);
                };
                y += 1;
            }
            x += 1;
        }
    }

    /// The image as a binary PPM file: the header, then the whole buffer.
    pub fn ppm_bytes(&self) -> (bytes: Vec<u8>)
        ensures
            bytes@ == ppm_header(self@.width as nat, self@.height as nat) + self@.data,
    {
        let (width, height) = self.dimensions;
        let mut out: Vec<u8> = Vec::new();
        out.push(80u8);
        out.push(54u8);
        out.push(10u8);
        let mut w = decimal(width);
        out.append(&mut w);
        out.push(32u8);
        let mut h = decimal(height);
        out.append(&mut h);
        out.push(10u8);
        out.push(50u8);
        out.push(53u8);
        out.push(53u8);
        out.push(10u8);
        let ghost header = out@;
        assert(header =~= ppm_header(width as nat, height as nat));
        let mut i: usize = 0;
        while i < self.image.len()
            invariant
                i <= self.image@.len(),
                out@ == header + self.image@.subrange(0, i as int),
            decreases self.image@.len() - i,
        {
            out.push(self.image[i]);
            i += 1;
            assert(out@ =~= header + self.image@.subrange(0, i as int));
        }
        assert(self.image@.subrange(0, self.image@.len() as int) =~= self.image@);
        out
    }
}

/// The threads that shaders run on.
pub struct ThreadPool {
    pool: Vec<()>,
}

impl View for ThreadPool {
    type V = nat;

    /// The number of threads.
    closed spec fn view(&self) -> nat {
        self.pool@.len()
    }
}

impl ThreadPool {
    /// A pool without threads.
    pub fn new() -> (p: Self)
        ensures
            p@ == 0,
    {
        Self { pool: Vec::new() }
    }
}

} // verus!
