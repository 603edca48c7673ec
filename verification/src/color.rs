//! Surfaces: what a face, a floor or a ceiling is painted with.

use vstd::prelude::*;
use crate::scalar::Scalar;

verus! {

/// A surface. Sampling one at a point gives red, green, blue and opacity.
#[derive(Clone, Copy, Debug, PartialEq, Eq)]
pub enum Color {
    /// One colour everywhere: red, green, blue, opacity.
    Solid([Scalar; 4]),
    /// A gradient that shows the surface coordinates.
    Test,
    /// White with a translucent window in the middle.
    Test2,
    /// The texture that the map holds under this handle.
    Texture(usize),
}

impl Color {
    /// Whether the surface can be drawn by one who holds `textures`
    /// textures: a texture surface must name one of them.
    pub open spec fn spec_known(self, textures: nat) -> bool {
        match self {
            Color::Texture(handle) => handle < textures,
            _ => true,
        }
    }

    /// Whether the surface can be drawn by one who holds `textures`
    /// textures: a texture surface must name one of them.
    pub fn known(&self, textures: usize) -> (b: bool)
        ensures
            b == self.spec_known(textures as nat),
    {
        match self {
            Color::Texture(handle) => *handle < textures,
            _ => true,
        }
    }
}

/// The bytes that one texel takes: red, green, blue, opacity.
pub const TEXEL_BYTES: usize = 4;

/// A decoded image: `height` rows of `width` texels of four bytes each.
#[derive(Debug)]
pub struct Texture {
    width: usize,
    height: usize,
    data: Vec<u8>,
}

impl Texture {
    /// The number of texels in a row.
    pub closed spec fn spec_width(&self) -> nat {
        self.width as nat
    }

    /// The number of rows.
    pub closed spec fn spec_height(&self) -> nat {
        self.height as nat
    }

    /// The image, row after row, four bytes to the texel.
    pub closed spec fn bytes(&self) -> Seq<u8> {
        self.data@
    }

    /// The image holds exactly the texels that its size announces, and
    /// every byte of it can be addressed.
    pub open spec fn wf(&self) -> bool {
        &&& self.bytes().len() == self.spec_width() * self.spec_height() * 4
        &&& self.bytes().len() <= usize::MAX
    }

    /// Whether the texel in column `xi` of row `yi` lies within the image's
    /// bytes. A column beyond the row's end runs on into the next row.
    pub open spec fn holds(&self, xi: int, yi: int) -> bool {
        0 <= xi && 0 <= yi && yi * self.spec_width() + xi < self.spec_width() * self.spec_height()
    }

    /// The four bytes of the texel in column `xi` of row `yi`.
    pub open spec fn texel(&self, xi: int, yi: int) -> Seq<u8> {
        self.bytes().subrange(
            (yi * self.spec_width() + xi) * 4,
            (yi * self.spec_width() + xi) * 4 + 4,
        )
    }

    /// The image of the given size over `data`, if `data` has exactly the
    /// bytes of `width * height` texels.
    pub fn new(width: usize, height: usize, data: Vec<u8>) -> (t: Option<Texture>)
        ensures
            t.is_some() <==> data@.len() == width * height * 4,
            t.is_some() ==> {
                &&& t.unwrap().wf()
                &&& t.unwrap().spec_width() == width
                &&& t.unwrap().spec_height() == height
                &&& t.unwrap().bytes() == data@
            },
    {
        let given = data.len();
        let texels = match width.checked_mul(height) {
            Some(n) => n,
            None => {
                proof {
                    assert(width * height * 4 >= width * height) by (nonlinear_arith)
                        requires
                            width * height >= 0,
                    ;
                }
                return None;
            },
        };
        let len = match texels.checked_mul(TEXEL_BYTES) {
            Some(n) => n,
            None => {
                assert(width * height * 4 > usize::MAX);
                return None;
            },
        };
        if given != len {
            return None;
        }
        Some(Texture { width, height, data })
    }

    /// The image of the given size whose texels are `pixels`, row after row,
    /// if there are exactly `width * height` of them.
    pub fn from_pixels(width: usize, height: usize, pixels: &Vec<[u8; 4]>) -> (t: Option<Texture>)
        ensures
            t.is_some() <==> pixels@.len() == width * height && pixels@.len() * 4 <= usize::MAX,
            t.is_some() ==> {
                &&& t.unwrap().wf()
                &&& t.unwrap().spec_width() == width
                &&& t.unwrap().spec_height() == height
                &&& forall|k: int, i: int|
                    0 <= k < pixels@.len() && 0 <= i < 4 ==> #[trigger] t.unwrap().bytes()[k * 4
                        + i] == pixels@[k]@[i]
            },
    {
        let n = pixels.len();
        if n > usize::MAX / TEXEL_BYTES {
            return None;
        }
        match width.checked_mul(height) {
            Some(texels) => {
                if texels != n {
                    return None;
                }
            },
            None => {
                return None;
            },
        }
        let mut data: Vec<u8> = Vec::new();
        let mut k: usize = 0;
        while k < n
            invariant
                n == pixels@.len(),
                n * 4 <= usize::MAX,
                k <= n,
                data@.len() == k * 4,
                forall|j: int, i: int|
                    0 <= j < k && 0 <= i < 4 ==> #[trigger] data@[j * 4 + i] == pixels@[j]@[i],
            decreases n - k,
        {
            let pixel = &pixels[k];
            let ghost before = data@;
            data.push(pixel[0]);
            data.push(pixel[1]);
            data.push(pixel[2]);
            data.push(pixel[3]);
            proof {
                assert forall|j: int, i: int| 0 <= j < k + 1 && 0 <= i < 4 implies #[trigger] data@[j
                    * 4 + i] == pixels@[j]@[i] by {
                    if j < k {
                        assert(data@[j * 4 + i] == before[j * 4 + i]);
                    }
                }
            }
            k = k + 1;
        }
        Some(Texture { width, height, data })
    }

    /// The number of texels in a row.
    pub fn width(&self) -> (w: usize)
        ensures
            w == self.spec_width(),
    {
        self.width
    }

    /// The number of rows.
    pub fn height(&self) -> (h: usize)
        ensures
            h == self.spec_height(),
    {
        self.height
    }

    /// The texel in column `xi` of row `yi`, or nothing where it lies
    /// beyond the image's bytes.
    pub fn get(&self, xi: usize, yi: usize) -> (texel: Option<[u8; 4]>)
        requires
            self.wf(),
        ensures
            texel.is_some() <==> self.holds(xi as int, yi as int),
            texel.is_some() ==> texel.unwrap()@ == self.texel(xi as int, yi as int),
    {
        proof {
            assert(self.width * self.height <= self.width * self.height * 4) by (nonlinear_arith)
                requires
                    0 <= self.width * self.height,
            ;
        }
        let texels = self.width * self.height;
        let row = match yi.checked_mul(self.width) {
            Some(r) => r,
            None => {
                return None;
            },
        };
        let at = match row.checked_add(xi) {
            Some(p) => p,
            None => {
                return None;
            },
        };
        if at < texels {
            Some(self.sample(xi, yi))
        } else {
            None
        }
    }

    /// The texel in column `xi` of row `yi`: red, green, blue, opacity.
    pub fn sample(&self, xi: usize, yi: usize) -> (texel: [u8; 4])
        requires
            self.wf(),
            self.holds(xi as int, yi as int),
        ensures
            texel@ == self.texel(xi as int, yi as int),
    {
        proof {
            assert(0 <= yi * self.width) by (nonlinear_arith)
                requires
                    0 <= yi,
                    0 <= self.width,
            ;
            assert((yi * self.width + xi) * 4 + 4 <= self.width * self.height * 4);
        }
        let index = (yi * self.width + xi) * TEXEL_BYTES;
        let texel = [
            self.data[index],
            self.data[index + 1],
            self.data[index + 2],
            self.data[index + 3],
        ];
        proof {
            assert(texel@ =~= self.texel(xi as int, yi as int));
        }
        texel
    }
}

} // verus!
