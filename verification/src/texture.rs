//! Textures: what color a surface has at a point.

use vstd::prelude::*;
use crate::scalar::{Real, HALF_BITS, ONE_BITS, TEN_BITS};
use crate::vec3::Vec3;
use crate::interval::Interval;
use crate::perlin::Perlin;
use crate::sampling::Rng;

verus! {

/// The number 255.
pub const BYTE_MAX_BITS: u64 = 0x406F_E000_0000_0000;

/// The number of octaves of turbulence in a noise texture.
pub const OCTAVES: i32 = 7;

/// The greatest width and the greatest height of an image.
pub const SIDE_MAX: usize = 0x7FFF_FFFF;

/// One color everywhere.
pub struct SolidColorTexture {
    pub albedo: Vec3,
}

/// A checkerboard of two textures.
pub struct CheckerTexture {
    pub inv_scale: Real,
    pub even: Box<Texture>,
    pub odd: Box<Texture>,
}

/// Marble: a sine wave along z, disturbed by turbulence.
pub struct NoiseTexture {
    pub noise: Perlin,
    pub scale: Real,
}

/// A picture: rows of pixels from the top down, each pixel four bytes, of
/// which the first three are red, green and blue.
pub struct ImageTexture {
    pub image: Vec<u8>,
    pub width: usize,
    pub height: usize,
}

/// A texture of one of the four kinds.
pub enum Texture {
    SolidColor(SolidColorTexture),
    Checker(CheckerTexture),
    Noise(NoiseTexture),
    Image(ImageTexture),
}

impl SolidColorTexture {
    pub fn new(albedo: Vec3) -> (r: SolidColorTexture)
        ensures
            r.albedo == albedo,
    {
        SolidColorTexture { albedo }
    }

    pub open spec fn spec_color_value(&self, u: Real, v: Real, p: Vec3) -> Vec3 {
        self.albedo
    }

    #[verifier::when_used_as_spec(spec_color_value)]
    pub fn color_value(&self, u: Real, v: Real, p: Vec3) -> (r: Vec3)
        ensures
            r == self.spec_color_value(u, v, p),
    {
        self.albedo
    }
}

impl CheckerTexture {
    /// A checkerboard whose squares have the side `scale`.
    pub fn new(scale: Real, even: Texture, odd: Texture) -> (r: CheckerTexture)
        ensures
            r.inv_scale == Real::spec_from_bits(ONE_BITS).div(scale),
            *r.even == even,
            *r.odd == odd,
    {
        let inv_scale = Real::one().div(scale);
        CheckerTexture { inv_scale, even: Box::new(even), odd: Box::new(odd) }
    }

    /// Whether a coordinate lies in a stripe with an odd number: the stripes
    /// have the width of a square and count up from zero; below zero all is
    /// stripe 0.
    pub open spec fn spec_odd_stripe(&self, t: Real) -> bool {
        self.inv_scale.mul(t).floor().to_u64() % 2 == 1
    }

    #[verifier::when_used_as_spec(spec_odd_stripe)]
    pub fn odd_stripe(&self, t: Real) -> (r: bool)
        ensures
            r == self.spec_odd_stripe(t),
    {
        self.inv_scale.mul(t).floor().to_u64() % 2 == 1
    }

    /// Whether the point with the surface coordinates (u, v) takes the even
    /// texture: the numbers of its two stripes add up to an even number.
    pub open spec fn spec_is_even(&self, u: Real, v: Real) -> bool {
        self.spec_odd_stripe(u) == self.spec_odd_stripe(v)
    }

    #[verifier::when_used_as_spec(spec_is_even)]
    pub fn is_even(&self, u: Real, v: Real) -> (r: bool)
        ensures
            r == self.spec_is_even(u, v),
    {
        self.odd_stripe(u) == self.odd_stripe(v)
    }
}

impl NoiseTexture {
    /// Marble over a lattice drawn from a generator: one that `Perlin::new`
    /// may give.
    pub fn new(scale: Real, rng: &mut Rng) -> (r: NoiseTexture)
        ensures
            r.scale == scale,
            r.noise.wf(),
            r.noise.permuted(),
            r.noise.drawn(),
    {
        let noise = Perlin::new(rng);
        NoiseTexture { noise, scale }
    }

    /// Marble over a given lattice.
    pub fn over(noise: Perlin, scale: Real) -> (r: NoiseTexture)
        ensures
            r.noise == noise,
            r.scale == scale,
    {
        NoiseTexture { noise, scale }
    }

    /// Gray of the lightness (1 + sin(scale * z + 10 * turbulence)) / 2.
    pub open spec fn spec_color_value(&self, u: Real, v: Real, p: Vec3) -> Vec3 {
        let half = Real { bits: HALF_BITS };
        Vec3 { x: half, y: half, z: half }.scaled_by(
            Real { bits: ONE_BITS }.add(
                self.scale.mul(p.z).add(
                    Real { bits: TEN_BITS }.mul(self.noise.spec_turb(p, OCTAVES)),
                ).sin(),
            ),
        )
    }

    pub fn color_value(&self, u: Real, v: Real, p: Vec3) -> (r: Vec3)
        requires
            self.noise.wf(),
        ensures
            r == self.spec_color_value(u, v, p),
    {
        let half = Real::from_bits(HALF_BITS);
        let wave = self.scale.mul(p.z).add(
            Real::from_bits(TEN_BITS).mul(self.noise.turb(p, OCTAVES)),
        ).sin();
        Vec3::new(half, half, half).scaled_by(Real::one().add(wave))
    }
}

/// The interval from 0 to 1.
pub open spec fn spec_unit_interval() -> Interval {
    Interval { min: Real { bits: 0 }, max: Real { bits: ONE_BITS } }
}

#[verifier::when_used_as_spec(spec_unit_interval)]
pub fn unit_interval() -> (r: Interval)
    ensures
        r == spec_unit_interval(),
{
    Interval::new(Real::zero(), Real::one())
}

/// The color that debugging uses for a picture without pixels: cyan.
pub open spec fn spec_cyan() -> Vec3 {
    Vec3 { x: Real { bits: 0 }, y: Real { bits: ONE_BITS }, z: Real { bits: ONE_BITS } }
}

/// A byte as a share of 255.
pub open spec fn spec_channel(byte: u8) -> Real {
    Real { bits: ONE_BITS }.div(Real { bits: BYTE_MAX_BITS }).mul(Real::from_u32(byte as u32))
}

#[verifier::when_used_as_spec(spec_channel)]
pub fn channel(byte: u8) -> (r: Real)
    ensures
        r == spec_channel(byte),
{
    let color_scale = Real::one().div(Real::from_bits(BYTE_MAX_BITS));
    color_scale.mul(Real::from_u32(byte as u32))
}

impl ImageTexture {
    /// The bytes are four for each pixel, and neither side is longer than a
    /// 32-bit integer can say.
    pub open spec fn wf(&self) -> bool {
        &&& self.width <= SIDE_MAX
        &&& self.height <= SIDE_MAX
        &&& self.image@.len() == 4 * self.width * self.height
    }

    pub fn valid(&self) -> (r: bool)
        ensures
            r == self.wf(),
    {
        if self.width > SIDE_MAX || self.height > SIDE_MAX {
            return false;
        }
        assert(4 * self.width * self.height <= 0x1_0000_0000_0000_0000) by (nonlinear_arith)
            requires
                self.width <= 0x7FFF_FFFF,
                self.height <= 0x7FFF_FFFF,
        ;
        assert(4 * self.width <= 0x2_0000_0000) by (nonlinear_arith)
            requires
                self.width <= 0x7FFF_FFFF,
        ;
        let pixels: u128 = 4 * (self.width as u128) * (self.height as u128);
        self.image.len() as u128 == pixels
    }

    /// A picture of `width` by `height` pixels; none where the number of
    /// bytes does not fit the sides or a side is too long.
    pub fn new(image: Vec<u8>, width: usize, height: usize) -> (r: Option<ImageTexture>)
        ensures
            r.is_some() <==> (ImageTexture { image, width, height }).wf(),
            r matches Some(t) ==> t == (ImageTexture { image, width, height }),
    {
        if width > SIDE_MAX || height > SIDE_MAX {
            return None;
        }
        assert(4 * width * height <= 0x1_0000_0000_0000_0000) by (nonlinear_arith)
            requires
                width <= 0x7FFF_FFFF,
                height <= 0x7FFF_FFFF,
        ;
        assert(4 * width <= 0x2_0000_0000) by (nonlinear_arith)
            requires
                width <= 0x7FFF_FFFF,
        ;
        let pixels: u128 = 4 * (width as u128) * (height as u128);
        if image.len() as u128 == pixels {
            Some(ImageTexture { image, width, height })
        } else {
            None
        }
    }

    /// The column or row that a coordinate in [0, 1] names among `count`
    /// columns or rows: the whole part of their product, and the last one
    /// for the coordinate 1.
    pub open spec fn spec_place(t: Real, count: usize) -> usize {
        let at = t.mul(Real::from_u32(count as u32)).to_u64();
        if at >= count {
            (count - 1) as usize
        } else {
            at as usize
        }
    }

    pub fn place(t: Real, count: usize) -> (r: usize)
        requires
            0 < count <= SIDE_MAX,
        ensures
            r == Self::spec_place(t, count),
            r < count,
    {
        let at: u64 = t.mul(Real::from_u32(count as u32)).to_u64();
        if at >= count as u64 {
            count - 1
        } else {
            at as usize
        }
    }

    /// The column of the pixel at the surface coordinate `u`.
    pub open spec fn spec_column(&self, u: Real) -> usize {
        Self::spec_place(spec_unit_interval().clamp(u), self.width)
    }

    /// The row of the pixel at the surface coordinate `v`, which counts from
    /// the bottom up while the rows count from the top down.
    pub open spec fn spec_row(&self, v: Real) -> usize {
        Self::spec_place(Real { bits: ONE_BITS }.sub(spec_unit_interval().clamp(v)), self.height)
    }

    /// The color of the pixel at (u, v), each coordinate brought into
    /// [0, 1]; cyan where the picture has no pixels.
    pub open spec fn spec_color_value(&self, u: Real, v: Real, p: Vec3) -> Vec3 {
        if self.height == 0 || self.width == 0 {
            spec_cyan()
        } else {
            let at = 4 * (self.width * self.spec_row(v) + self.spec_column(u));
            Vec3 {
                x: spec_channel(self.image@[at]),
                y: spec_channel(self.image@[at + 1]),
                z: spec_channel(self.image@[at + 2]),
            }
        }
    }

    pub fn color_value(&self, u: Real, v: Real, p: Vec3) -> (r: Vec3)
        requires
            self.wf(),
        ensures
            r == self.spec_color_value(u, v, p),
    {
        if self.height == 0 || self.width == 0 {
            return Vec3::new(Real::zero(), Real::one(), Real::one());
        }
        let u = unit_interval().clamp(u);
        let v = Real::one().sub(unit_interval().clamp(v));
        let i: usize = Self::place(u, self.width);
        let j: usize = Self::place(v, self.height);
        assert(0 <= self.width * j <= self.width * j + i < self.width * self.height && 4 * (
            self.width * j + i) + 3 < 4 * self.width * self.height && 4 * self.width
            * self.height == 4 * (self.width * self.height)) by (nonlinear_arith)
            requires
                0 <= i < self.width,
                0 <= j < self.height,
        ;
        let len: usize = self.image.len();
        assert(4 * (self.width * j + i) + 3 < len);
        let at: usize = 4 * (self.width * j + i);
        Vec3::new(channel(self.image[at]), channel(self.image[at + 1]), channel(self.image[at + 2]))
    }
}

impl Texture {
    /// Whether every part of the texture is well formed.
    pub open spec fn wf(&self) -> bool
        decreases self,
    {
        match self {
            Texture::SolidColor(_) => true,
            Texture::Checker(t) => t.even.wf() && t.odd.wf(),
            Texture::Noise(t) => t.noise.wf(),
            Texture::Image(t) => t.wf(),
        }
    }

    pub fn valid(&self) -> (r: bool)
        ensures
            r == self.wf(),
        decreases self,
    {
        match self {
            Texture::SolidColor(_) => true,
            Texture::Checker(t) => t.even.valid() && t.odd.valid(),
            Texture::Noise(t) => t.noise.valid(),
            Texture::Image(t) => t.valid(),
        }
    }

    /// The color at the surface coordinates (u, v) and the point `p`.
    pub open spec fn spec_color_value(&self, u: Real, v: Real, p: Vec3) -> Vec3
        decreases self,
    {
        match self {
            Texture::SolidColor(t) => t.spec_color_value(u, v, p),
            Texture::Checker(t) => if t.spec_is_even(u, v) {
                t.even.spec_color_value(u, v, p)
            } else {
                t.odd.spec_color_value(u, v, p)
            },
            Texture::Noise(t) => t.spec_color_value(u, v, p),
            Texture::Image(t) => t.spec_color_value(u, v, p),
        }
    }

    pub fn color_value(&self, u: Real, v: Real, p: Vec3) -> (r: Vec3)
        requires
            self.wf(),
        ensures
            r == self.spec_color_value(u, v, p),
        decreases self,
    {
        match self {
            Texture::SolidColor(t) => t.color_value(u, v, p),
            Texture::Checker(t) => {
                if t.is_even(u, v) {
                    t.even.color_value(u, v, p)
                } else {
                    t.odd.color_value(u, v, p)
                }
            },
            Texture::Noise(t) => t.color_value(u, v, p),
            Texture::Image(t) => t.color_value(u, v, p),
        }
    }
}

} // verus!
