//! The camera: from a pixel to the rays through it, from a ray to the light
//! that comes along it, and from the light to the bytes of a picture.

use vstd::prelude::*;
use crate::scalar::{Real, HALF_BITS, INFINITY_BITS, ONE_BITS, TEN_BITS, TWO_BITS};
use crate::vec3::{Vec3, cross};
use crate::ray::Ray;
use crate::interval::{Interval, DELTA_BITS};
use crate::sampling::{Rng, Sampler, ATTEMPTS, capped, in_unit_disc_most, lemma_advanced,
    lemma_in_unit_disc_draws, random_double, random_in_unit_disc, spec_random_in_unit_disc,
    unit_range, unit_vector_most};
use crate::optics::degrees_to_radians;
use crate::scene::Scene;
use crate::laws::{lemma_hit_draws, lemma_hit_material};
use crate::material::lemma_scatter_draws;
use crate::bvhnode::{all_below, lemma_sort_permutes, places, sort_by_key, spec_places, spec_sort};

verus! {

/// The upper bound of a color channel before it is turned into a byte:
/// 0.999.
pub const INTENSITY_MAX_BITS: u64 = 0x3FEF_F7CE_D916_872B;

/// The number 256.
pub const BYTE_RANGE_BITS: u64 = 0x4070_0000_0000_0000;

/// How many rays are sent through each pixel unless the camera is told
/// otherwise.
pub const SAMPLES_PER_PIXEL: u64 = 80;

/// How many times a ray is followed from surface to surface unless the camera
/// is told otherwise.
pub const MAX_DEPTH: u16 = 2;

/// A camera, with all that `new` derives from where it stands and looks.
#[derive(Clone, Copy, Debug)]
pub struct Camera {
    /// The width of the picture in pixels.
    pub image_width: u64,
    /// The number of rays through each pixel.
    pub samples_per_pixel: u64,
    /// The height of the picture in pixels.
    pub image_height: u64,
    pub camera_center: Vec3,
    /// The middle of the pixel in the upper left corner.
    pub pixel00_loc: Vec3,
    /// From a pixel to the next one on its right.
    pub pixel_delta_u: Vec3,
    /// From a pixel to the next one below.
    pub pixel_delta_v: Vec3,
    /// One divided by the number of rays through each pixel.
    pub pixel_samples_scale: Real,
    /// How many times a ray is followed from surface to surface.
    pub max_depth: u16,
    /// The angle of the cone of rays through each pixel, in degrees.
    pub defocus_angle: Real,
    /// The horizontal radius of the lens.
    pub defocus_disc_u: Vec3,
    /// The vertical radius of the lens.
    pub defocus_disc_v: Vec3,
}

/// The height in pixels of a picture of a given width and ratio of width to
/// height: their quotient cut to a whole number, but at least 1.
pub open spec fn spec_image_height(image_width: u64, aspect_ratio: Real) -> u64 {
    let exact = Real::from_u64(image_width).div(aspect_ratio).to_u64();
    if exact < 1 {
        1
    } else {
        exact
    }
}

#[verifier::when_used_as_spec(spec_image_height)]
pub fn image_height(image_width: u64, aspect_ratio: Real) -> (r: u64)
    ensures
        r == spec_image_height(image_width, aspect_ratio),
        r >= 1,
{
    let exact: u64 = Real::from_u64(image_width).div(aspect_ratio).to_u64();
    if exact < 1 {
        1
    } else {
        exact
    }
}

/// The square root of a positive number, and 0 for every other.
pub open spec fn spec_linear_to_gamma(linear_component: Real) -> Real {
    if linear_component.gt(Real { bits: 0 }) {
        linear_component.sqrt()
    } else {
        Real { bits: 0 }
    }
}

#[verifier::when_used_as_spec(spec_linear_to_gamma)]
pub fn linear_to_gamma(linear_component: Real) -> (r: Real)
    ensures
        r == spec_linear_to_gamma(linear_component),
{
    if linear_component.gt(Real::zero()) {
        return linear_component.sqrt();
    }
    Real::zero()
}

/// The byte of a color channel: the channel after the gamma transform is
/// brought into [0, 0.999], multiplied by 256 and cut to a whole number.
pub open spec fn spec_channel_byte(linear_component: Real) -> u8 {
    let intensity = Interval { min: Real { bits: 0 }, max: Real { bits: INTENSITY_MAX_BITS } };
    let scaled = Real { bits: BYTE_RANGE_BITS }.mul(
        intensity.clamp(spec_linear_to_gamma(linear_component)),
    ).to_u64();
    if scaled > 255 {
        255
    } else {
        scaled as u8
    }
}

#[verifier::when_used_as_spec(spec_channel_byte)]
pub fn channel_byte(linear_component: Real) -> (r: u8)
    ensures
        r == spec_channel_byte(linear_component),
{
    let intensity = Interval::new(Real::zero(), Real::from_bits(INTENSITY_MAX_BITS));
    let scaled: u64 = Real::from_bits(BYTE_RANGE_BITS).mul(
        intensity.clamp(linear_to_gamma(linear_component)),
    ).to_u64();
    if scaled > 255 {
        255
    } else {
        scaled as u8
    }
}

/// A number in decimal digits, without leading zeros.
pub open spec fn spec_decimal(n: nat) -> Seq<u8>
    decreases n,
{
    if n < 10 {
        seq![(48 + n) as u8]
    } else {
        spec_decimal(n / 10).push((48 + n % 10) as u8)
    }
}

/// Writes a number in decimal digits.
pub fn push_decimal(out: &mut Vec<u8>, n: u64)
    ensures
        final(out)@ == old(out)@ + spec_decimal(n as nat),
    decreases n,
{
    if n >= 10 {
        push_decimal(out, n / 10);
    }
    out.push(48 + (n % 10) as u8);
    assert(out@ =~= old(out)@ + spec_decimal(n as nat));
}

/// The line of a pixel: its three bytes in decimal digits with a space
/// between them, and a line feed.
pub open spec fn spec_color_line(pixel_color: &Vec3) -> Seq<u8> {
    spec_decimal(spec_channel_byte(pixel_color.x) as nat).push(32) + spec_decimal(
        spec_channel_byte(pixel_color.y) as nat,
    ).push(32) + spec_decimal(spec_channel_byte(pixel_color.z) as nat).push(10)
}

/// Writes the line of a pixel.
pub fn write_color(contents: &mut Vec<u8>, pixel_color: &Vec3)
    ensures
        final(contents)@ == old(contents)@ + spec_color_line(pixel_color),
{
    let r_byte: u8 = channel_byte(pixel_color.x);
    let g_byte: u8 = channel_byte(pixel_color.y);
    let b_byte: u8 = channel_byte(pixel_color.z);
    push_decimal(contents, r_byte as u64);
    contents.push(32);
    push_decimal(contents, g_byte as u64);
    contents.push(32);
    push_decimal(contents, b_byte as u64);
    contents.push(10);
    assert(contents@ =~= old(contents)@ + spec_color_line(pixel_color));
}

/// The head of a picture: the line that names the plain-text format of
/// pixmaps, the line of the width and the height, and the line of the
/// greatest value of a color channel, 255.
pub open spec fn spec_header(image_width: u64, image_height: u64) -> Seq<u8> {
    seq![80u8, 51u8, 10u8] + spec_decimal(image_width as nat).push(32) + spec_decimal(
        image_height as nat,
    ).push(10) + seq![50u8, 53u8, 53u8, 10u8]
}

/// Writes the head of a picture.
pub fn write_header(contents: &mut Vec<u8>, image_width: u64, image_height: u64)
    ensures
        final(contents)@ == old(contents)@ + spec_header(image_width, image_height),
{
    contents.push(80);
    contents.push(51);
    contents.push(10);
    push_decimal(contents, image_width as u64);
    contents.push(32);
    push_decimal(contents, image_height as u64);
    contents.push(10);
    contents.push(50);
    contents.push(53);
    contents.push(53);
    contents.push(10);
    assert(contents@ =~= old(contents)@ + spec_header(image_width, image_height));
}

/// How many numbers a ray through a pixel takes at most before it sets out:
/// two for the point of the pixel it aims at, what a point of the lens takes,
/// and one for its time.
pub open spec fn ray_most() -> int {
    3 + in_unit_disc_most()
}

/// A point of the square from -0.5 to 0.5 in x and y, from the next two
/// numbers.
pub open spec fn spec_sample_square(s: Sampler) -> (Vec3, Sampler) {
    let half = Real { bits: HALF_BITS };
    let s1 = s.advanced();
    (Vec3 { x: s.peek().sub(half), y: s1.peek().sub(half), z: Real { bits: 0 } }, s1.advanced())
}

/// The lines of the first `n` of some pixels, each color first multiplied
/// by `scale`.
pub open spec fn spec_row_lines(pixels: Seq<Vec3>, n: nat, scale: Real) -> Seq<u8>
    decreases n,
{
    if n == 0 {
        Seq::empty()
    } else {
        spec_row_lines(pixels, (n - 1) as nat, scale) + spec_color_line(
            &pixels[n - 1].scaled_by(scale),
        )
    }
}

/// The lines of the first `n` of some rows of pixels.
pub open spec fn spec_rows_lines(rows: Seq<Seq<Vec3>>, n: nat, scale: Real) -> Seq<u8>
    decreases n,
{
    if n == 0 {
        Seq::empty()
    } else {
        spec_rows_lines(rows, (n - 1) as nat, scale) + spec_row_lines(
            rows[n - 1],
            rows[n - 1].len(),
            scale,
        )
    }
}

/// Writes the lines of a row of pixels.
pub fn write_row(contents: &mut Vec<u8>, pixels: &Vec<Vec3>, scale: Real)
    ensures
        final(contents)@ == old(contents)@ + spec_row_lines(pixels@, pixels@.len(), scale),
{
    let mut i: usize = 0;
    while i < pixels.len()
        invariant
            i <= pixels@.len(),
            contents@ == old(contents)@ + spec_row_lines(pixels@, i as nat, scale),
        decreases pixels@.len() - i,
    {
        write_color(contents, &pixels[i].scaled_by(scale));
        assert(contents@ =~= old(contents)@ + spec_row_lines(pixels@, (i + 1) as nat, scale));
        i = i + 1;
    }
}

impl Camera {
    /// A camera at `look_from` that looks at `look_at`, with `v_up` upwards.
    /// The picture is `image_width` pixels wide and its sides have the ratio
    /// `aspect_ratio`; `vfov` is the angle of view from top to bottom, in
    /// degrees. The plane in focus lies at the distance 10; the lens opens
    /// by `defocus_angle` degrees.
    pub open spec fn spec_new(
        aspect_ratio: Real,
        image_width: u64,
        vfov: Real,
        look_from: Vec3,
        look_at: Vec3,
        v_up: Vec3,
        defocus_angle: Real,
    ) -> Camera {
        let two = Real { bits: TWO_BITS };
        let focus_dist = Real { bits: TEN_BITS };
        let height = spec_image_height(image_width, aspect_ratio);
        let h = degrees_to_radians(vfov).div(two).tan();
        let viewport_height = two.mul(h).mul(focus_dist);
        let viewport_width = viewport_height.mul(
            Real::from_u64(image_width).div(Real::from_u64(height)),
        );
        let w = look_from.sub(look_at).normalized();
        let u = cross(&v_up, &w).normalized();
        let v = cross(&w, &u);
        let viewport_u = u.scaled_by(viewport_width);
        let viewport_v = v.neg().scaled_by(viewport_height);
        let pixel_delta_u = viewport_u.div(Real::from_u64(image_width));
        let pixel_delta_v = viewport_v.div(Real::from_u64(height));
        let viewport_upper_left = look_from.sub(w.scaled_by(focus_dist)).sub(
            viewport_u.div(two),
        ).sub(viewport_v.div(two));
        let defocus_radius = focus_dist.mul(degrees_to_radians(defocus_angle.div(two)).tan());
        Camera {
            image_width,
            samples_per_pixel: SAMPLES_PER_PIXEL,
            image_height: height,
            camera_center: look_from,
            pixel00_loc: viewport_upper_left.add(
                pixel_delta_u.add(pixel_delta_v).scaled_by(Real { bits: HALF_BITS }),
            ),
            pixel_delta_u,
            pixel_delta_v,
            pixel_samples_scale: Real { bits: ONE_BITS }.div(Real::from_u64(SAMPLES_PER_PIXEL)),
            max_depth: MAX_DEPTH,
            defocus_angle,
            defocus_disc_u: u.scale(defocus_radius),
            defocus_disc_v: v.scale(defocus_radius),
        }
    }

    #[verifier::when_used_as_spec(spec_new)]
    pub fn new(
        aspect_ratio: Real,
        image_width: u64,
        vfov: Real,
        look_from: Vec3,
        look_at: Vec3,
        v_up: Vec3,
        defocus_angle: Real,
    ) -> (r: Camera)
        ensures
            r == Camera::spec_new(
                aspect_ratio,
                image_width,
                vfov,
                look_from,
                look_at,
                v_up,
                defocus_angle,
            ),
            r.image_height >= 1,
    {
        let two = Real::from_bits(TWO_BITS);
        let height: u64 = image_height(image_width, aspect_ratio);
        let focus_dist = Real::from_bits(TEN_BITS);
        let theta = degrees_to_radians(vfov);
        let h = theta.div(two).tan();
        let camera_center = look_from;
        let viewport_height = two.mul(h).mul(focus_dist);
        let viewport_width = viewport_height.mul(
            Real::from_u64(image_width).div(Real::from_u64(height)),
        );
        let w = look_from.sub(look_at).normalized();
        let u = cross(&v_up, &w).normalized();
        let v = cross(&w, &u);
        let viewport_u = u.scaled_by(viewport_width);
        let viewport_v = v.neg().scaled_by(viewport_height);
        let pixel_delta_u = viewport_u.div(Real::from_u64(image_width));
        let pixel_delta_v = viewport_v.div(Real::from_u64(height));
        let viewport_upper_left = camera_center.sub(w.scaled_by(focus_dist)).sub(
            viewport_u.div(two),
        ).sub(viewport_v.div(two));
        let pixel00_loc = viewport_upper_left.add(
            pixel_delta_u.add(pixel_delta_v).scaled_by(Real::from_bits(HALF_BITS)),
        );
        let pixel_samples_scale = Real::one().div(Real::from_u64(SAMPLES_PER_PIXEL));
        let defocus_radius = focus_dist.mul(degrees_to_radians(defocus_angle.div(two)).tan());
        Camera {
            image_width,
            samples_per_pixel: SAMPLES_PER_PIXEL,
            image_height: height,
            camera_center,
            pixel00_loc,
            pixel_delta_u,
            pixel_delta_v,
            pixel_samples_scale,
            max_depth: MAX_DEPTH,
            defocus_angle,
            defocus_disc_u: u.scale(defocus_radius),
            defocus_disc_v: v.scale(defocus_radius),
        }
    }

    /// The camera with another number of rays through each pixel and another
    /// number of bounces.
    pub open spec fn spec_with_quality(self, samples_per_pixel: u64, max_depth: u16) -> Camera {
        Camera {
            samples_per_pixel,
            pixel_samples_scale: Real { bits: ONE_BITS }.div(Real::from_u64(samples_per_pixel)),
            max_depth,
            ..self
        }
    }

    #[verifier::when_used_as_spec(spec_with_quality)]
    pub fn with_quality(self, samples_per_pixel: u64, max_depth: u16) -> (r: Camera)
        ensures
            r == self.spec_with_quality(samples_per_pixel, max_depth),
    {
        Camera {
            samples_per_pixel,
            pixel_samples_scale: Real::one().div(Real::from_u64(samples_per_pixel)),
            max_depth,
            ..self
        }
    }

    pub fn sample_square(s: &mut Sampler) -> (r: Vec3)
        requires
            old(s).wf(),
        ensures
            final(s).wf(),
            (r, *final(s)) == spec_sample_square(*old(s)),
    {
        let half = Real::from_bits(HALF_BITS);
        let x = random_double(s).sub(half);
        let y = random_double(s).sub(half);
        Vec3::new(x, y, Real::zero())
    }

    /// A random point of the lens.
    pub open spec fn spec_defocus_disc_sample(&self, s: Sampler) -> (Vec3, Sampler) {
        let (p, s1) = spec_random_in_unit_disc(s);
        (
            self.camera_center.add(self.defocus_disc_u.scaled_by(p.x)).add(
                self.defocus_disc_v.scaled_by(p.y),
            ),
            s1,
        )
    }

    pub fn defocus_disc_sample(&self, s: &mut Sampler) -> (r: Vec3)
        requires
            old(s).wf(),
        ensures
            final(s).wf(),
            (r, *final(s)) == self.spec_defocus_disc_sample(*old(s)),
    {
        let p = random_in_unit_disc(s);
        self.camera_center.add(self.defocus_disc_u.scaled_by(p.x)).add(
            self.defocus_disc_v.scaled_by(p.y),
        )
    }

    /// Where a ray starts: at the center of the camera where the lens is
    /// shut, and at a random point of the lens where it is open.
    pub open spec fn spec_ray_origin(&self, s: Sampler) -> (Vec3, Sampler) {
        if self.defocus_angle.le(Real { bits: 0 }) {
            (self.camera_center, s)
        } else {
            self.spec_defocus_disc_sample(s)
        }
    }

    /// A ray through the pixel in column `i` and row `j`: it aims at a
    /// random point of the pixel's square and travels at a random time.
    pub open spec fn spec_get_ray(&self, i: Real, j: Real, s: Sampler) -> (Ray, Sampler) {
        let (offset, s1) = spec_sample_square(s);
        let pixel_sample = self.pixel00_loc.add(self.pixel_delta_u.scaled_by(i.add(offset.x))).add(
            self.pixel_delta_v.scaled_by(j.add(offset.y)),
        );
        let (ray_origin, s2) = self.spec_ray_origin(s1);
        (
            Ray { origin: ray_origin, direction: pixel_sample.sub(ray_origin), tm: s2.peek() },
            s2.advanced(),
        )
    }

    pub fn get_ray(&self, i: Real, j: Real, s: &mut Sampler) -> (r: Ray)
        requires
            old(s).wf(),
        ensures
            final(s).wf(),
            (r, *final(s)) == self.spec_get_ray(i, j, *old(s)),
            unit_range(r.tm),
            self.defocus_angle.le(Real { bits: 0 }) ==> r.origin == self.camera_center,
    {
        let offset = Self::sample_square(s);
        let pixel_sample = self.pixel00_loc.add(self.pixel_delta_u.scaled_by(i.add(offset.x))).add(
            self.pixel_delta_v.scaled_by(j.add(offset.y)),
        );
        let ray_origin = if self.defocus_angle.le(Real::zero()) {
            self.camera_center
        } else {
            self.defocus_disc_sample(s)
        };
        let ray_direction = pixel_sample.sub(ray_origin);
        let ray_time = random_double(s);
        Ray::new2(ray_origin, ray_direction, ray_time)
    }

    /// The range of parameters in which a ray looks for a surface: from
    /// 0.0001 on, so that it does not find the surface that it leaves.
    pub open spec fn spec_ahead() -> Interval {
        Interval { min: Real { bits: DELTA_BITS }, max: Real { bits: INFINITY_BITS } }
    }

    /// The light that comes along a ray which may yet go from surface to
    /// surface `depth` times. None comes along a ray that may go no
    /// farther, nor along one that hits nothing. A surface sends what it
    /// gives off, and where it scatters the ray, also the light that comes
    /// along the scattered ray, each color attenuated.
    pub open spec fn spec_ray_color(ray: &Ray, depth: u16, scene: &Scene, s: Sampler) -> (
        Vec3,
        Sampler,
    )
        decreases depth,
    {
        if depth == 0 {
            (Vec3::zero(), s)
        } else {
            let (found, s1) = scene.world.spec_hit(ray, &Self::spec_ahead(), s);
            match found {
                None => (Vec3::zero(), s1),
                Some(hit) => {
                    let mat = scene.materials@[hit.material as int];
                    let color_from_emission = mat.spec_emitted(hit.u, hit.v, hit.p);
                    let (scatter_result, s2) = mat.spec_scatter(ray, &hit, s1);
                    match scatter_result {
                        None => (color_from_emission, s2),
                        Some(scattered) => {
                            let (incoming, s3) = Self::spec_ray_color(
                                &scattered.scattered,
                                (depth - 1) as u16,
                                scene,
                                s2,
                            );
                            (color_from_emission.add(scattered.attenuation.mul(incoming)), s3)
                        },
                    }
                },
            }
        }
    }

    pub fn ray_color(ray: &Ray, depth: u16, scene: &Scene, s: &mut Sampler) -> (r: Vec3)
        requires
            old(s).wf(),
            scene.wf(),
        ensures
            final(s).wf(),
            (r, *final(s)) == Self::spec_ray_color(ray, depth, scene, *old(s)),
            depth == 0 ==> r == Vec3::zero() && *final(s) == *old(s),
        decreases depth,
    {
        if depth == 0 {
            return Vec3::zero();
        }
        let ahead = Interval::new(Real::from_bits(DELTA_BITS), Real::infinity());
        let hit = match scene.world.hit(ray, &ahead, s) {
            Some(hit) => hit,
            None => {
                return Vec3::zero();
            },
        };
        proof {
            lemma_hit_material(
                &scene.world,
                ray,
                &Self::spec_ahead(),
                *old(s),
                scene.materials@.len(),
            );
        }
        let mat = &scene.materials[hit.material];
        let color_from_emission = mat.emitted(hit.u, hit.v, hit.p);
        match mat.scatter(ray, &hit, s) {
            Some(scattered) => {
                let incoming = Self::ray_color(&scattered.scattered, depth - 1, scene, s);
                color_from_emission.add(scattered.attenuation.mul(incoming))
            },
            None => color_from_emission,
        }
    }

    /// The sum of the light along `left` more rays through a pixel, added
    /// one by one to what `sum` holds.
    pub open spec fn spec_pixel_from(
        &self,
        scene: &Scene,
        col: u64,
        row: u64,
        left: nat,
        sum: Vec3,
        s: Sampler,
    ) -> (Vec3, Sampler)
        decreases left,
    {
        if left == 0 {
            (sum, s)
        } else {
            let (ray, s1) = self.spec_get_ray(Real::from_u64(col), Real::from_u64(row), s);
            let (color, s2) = Self::spec_ray_color(&ray, self.max_depth, scene, s1);
            self.spec_pixel_from(scene, col, row, (left - 1) as nat, sum.add(color), s2)
        }
    }

    /// The sum of the light along all rays through a pixel.
    pub open spec fn spec_pixel(&self, scene: &Scene, col: u64, row: u64, s: Sampler) -> (
        Vec3,
        Sampler,
    ) {
        self.spec_pixel_from(scene, col, row, self.samples_per_pixel as nat, Vec3::zero(), s)
    }

    /// The sum of the light along all rays through a pixel, with the random
    /// numbers of a sampler.
    pub fn pixel_with(&self, scene: &Scene, col: u64, row: u64, s: &mut Sampler) -> (r: Vec3)
        requires
            old(s).wf(),
            scene.wf(),
        ensures
            final(s).wf(),
            (r, *final(s)) == self.spec_pixel(scene, col, row, *old(s)),
    {
        let mut pixel_color = Vec3::zero();
        let mut left: u64 = self.samples_per_pixel;
        while left > 0
            invariant
                s.wf(),
                scene.wf(),
                self.spec_pixel(scene, col, row, *old(s)) == self.spec_pixel_from(
                    scene,
                    col,
                    row,
                    left as nat,
                    pixel_color,
                    *s,
                ),
            decreases left,
        {
            let ray = self.get_ray(Real::from_u64(col), Real::from_u64(row), s);
            pixel_color = pixel_color.add(Self::ray_color(&ray, self.max_depth, scene, s));
            left = left - 1;
        }
        pixel_color
    }

    /// How many numbers a ray takes at most each time it goes from surface
    /// to surface in a scene: what the search for a hit takes and what the
    /// material takes.
    pub open spec fn bounce_most(scene: &Scene) -> int {
        scene.world.draws_most() + unit_vector_most()
    }

    /// How many numbers one ray through a pixel takes at most on its whole
    /// way.
    pub open spec fn sample_most(&self, scene: &Scene) -> int {
        ray_most() + self.max_depth * Self::bounce_most(scene)
    }

    /// How many numbers all rays through a pixel take at most.
    pub open spec fn spec_draws_most(&self, scene: &Scene) -> int {
        self.samples_per_pixel * self.sample_most(scene)
    }

    /// How many numbers are drawn for a pixel: one more than all its rays
    /// take at most, so that none is handed out twice; where the machine's
    /// integers do not hold that number, as many as they hold.
    pub open spec fn spec_table_len(&self, scene: &Scene) -> int {
        let total = self.samples_per_pixel * (ray_most() + self.max_depth * (capped(
            scene.world.draws_most(),
        ) + unit_vector_most()));
        if total >= usize::MAX {
            usize::MAX as int
        } else {
            total + 1
        }
    }

    /// Whether a color is the sum of the light through a pixel for the
    /// random numbers of some sampler that starts at its first number and
    /// holds as many numbers as are drawn for a pixel.
    pub open spec fn pixel_outcome(&self, scene: &Scene, col: u64, row: u64, color: Vec3) -> bool {
        exists|s: Sampler|
            s.wf() && s.next == 0 && s.draws@.len() == self.spec_table_len(scene) && color == (
            #[trigger] self.spec_pixel(scene, col, row, s)).0
    }

    /// The sum of the light along all rays through a pixel, with random
    /// numbers drawn from a generator: as many as the rays can take, so that
    /// each number is used once.
    pub fn pixel(&self, scene: &Scene, col: u64, row: u64, rng: &mut Rng) -> (r: Vec3)
        requires
            scene.wf(),
        ensures
            self.pixel_outcome(scene, col, row, r),
    {
        let cost: u64 = scene.world.draws_needed();
        let bounce: u128 = cost as u128 + 3 * (ATTEMPTS as u128);
        assert((self.max_depth as int) * (bounce as int) <= 0x1_0000 * 0x2_0000_0000_0000_0000)
            by (nonlinear_arith)
            requires
                self.max_depth <= 0xFFFF,
                bounce <= 0x2_0000_0000_0000_0000,
        ;
        let sample: u128 = 3 + 2 * (ATTEMPTS as u128) + (self.max_depth as u128) * bounce;
        let count: usize = if self.samples_per_pixel == 0 {
            1
        } else if sample >= usize::MAX as u128 {
            assert((self.samples_per_pixel as int) * (sample as int) >= sample) by (nonlinear_arith)
                requires
                    self.samples_per_pixel >= 1,
                    sample >= 0,
            ;
            usize::MAX
        } else {
            assert((self.samples_per_pixel as int) * (sample as int) <= 0xFFFF_FFFF_FFFF_FFFF
                * 0xFFFF_FFFF_FFFF_FFFF) by (nonlinear_arith)
                requires
                    self.samples_per_pixel <= 0xFFFF_FFFF_FFFF_FFFF,
                    0 <= sample <= 0xFFFF_FFFF_FFFF_FFFF,
            ;
            let total: u128 = (self.samples_per_pixel as u128) * sample;
            if total >= usize::MAX as u128 {
                usize::MAX
            } else {
                (total + 1) as usize
            }
        };
        let mut s = Sampler::draw(rng, count);
        let ghost s0 = s;
        let color = self.pixel_with(scene, col, row, &mut s);
        assert(color == self.spec_pixel(scene, col, row, s0).0);
        color
    }

    /// Whether some colors are what a row of the picture may be: one color
    /// for each column, each an outcome for its pixel.
    pub open spec fn row_outcome(&self, scene: &Scene, row: u64, pixels: Seq<Vec3>) -> bool {
        &&& pixels.len() == self.image_width
        &&& forall|col: int|
            0 <= col < pixels.len() ==> self.pixel_outcome(scene, col as u64, row, #[trigger] pixels[col])
    }

    /// One row of the picture: the sums of light of its pixels from left to
    /// right.
    pub fn render_row(&self, scene: &Scene, row: u64, rng: &mut Rng) -> (r: Vec<Vec3>)
        requires
            scene.wf(),
        ensures
            self.row_outcome(scene, row, r@),
    {
        let mut row_pixels: Vec<Vec3> = Vec::new();
        let mut col: u64 = 0;
        while col < self.image_width
            invariant
                col <= self.image_width,
                scene.wf(),
                row_pixels@.len() == col,
                forall|c: int|
                    0 <= c < row_pixels@.len() ==> self.pixel_outcome(
                        scene,
                        c as u64,
                        row,
                        #[trigger] row_pixels@[c],
                    ),
            decreases self.image_width - col,
        {
            let color = self.pixel(scene, col, row, rng);
            row_pixels.push(color);
            col = col + 1;
        }
        row_pixels
    }

    /// The bytes of a picture with given rows: the head, and the line of
    /// each pixel from the top row down and from left to right, the sum of
    /// light of each pixel divided by the number of rays through it.
    pub open spec fn spec_picture(&self, rows: Seq<Seq<Vec3>>) -> Seq<u8> {
        spec_header(self.image_width, self.image_height) + spec_rows_lines(
            rows,
            rows.len(),
            self.pixel_samples_scale,
        )
    }

    /// Whether some rows are what the picture may be: one row for each row
    /// of pixels, each an outcome for its row.
    pub open spec fn picture_outcome(&self, scene: &Scene, rows: Seq<Seq<Vec3>>) -> bool {
        &&& rows.len() == self.image_height
        &&& forall|row: int|
            0 <= row < rows.len() ==> self.row_outcome(scene, row as u64, #[trigger] rows[row])
    }

    /// The picture of a scene as the bytes of a plain-text image file.
    pub fn render(&self, scene: &Scene, rng: &mut Rng) -> (r: Vec<u8>)
        requires
            scene.wf(),
        ensures
            exists|rows: Seq<Seq<Vec3>>|
                self.picture_outcome(scene, rows) && r@ == #[trigger] self.spec_picture(rows),
    {
        let mut contents: Vec<u8> = Vec::new();
        write_header(&mut contents, self.image_width, self.image_height);
        let ghost mut rows: Seq<Seq<Vec3>> = Seq::empty();
        let mut row: u64 = 0;
        while row < self.image_height
            invariant
                row <= self.image_height,
                scene.wf(),
                rows.len() == row,
                forall|k: int|
                    0 <= k < rows.len() ==> self.row_outcome(scene, k as u64, #[trigger] rows[k]),
                contents@ == self.spec_picture(rows),
            decreases self.image_height - row,
        {
            let pixels = self.render_row(scene, row, rng);
            let ghost before = rows;
            proof {
                rows = rows.push(pixels@);
                assert(spec_rows_lines(rows, before.len(), self.pixel_samples_scale)
                    == spec_rows_lines(before, before.len(), self.pixel_samples_scale)) by {
                    lemma_rows_lines_prefix(rows, before, before.len(), self.pixel_samples_scale);
                }
            }
            write_row(&mut contents, &pixels, self.pixel_samples_scale);
            assert(contents@ =~= self.spec_picture(rows));
            row = row + 1;
        }
        contents
    }
}

/// A ray through a pixel takes no more numbers than `ray_most` says before it
/// sets out.
pub proof fn lemma_get_ray_draws(camera: &Camera, i: Real, j: Real, s: Sampler)
    requires
        s.wf(),
        s.left() >= ray_most(),
    ensures
        camera.spec_get_ray(i, j, s).1.follows(&s, ray_most()),
{
    lemma_advanced(s);
    lemma_advanced(s.advanced());
    let s1 = s.advanced().advanced();
    lemma_in_unit_disc_draws(ATTEMPTS as nat, s1);
    let (origin, s2) = camera.spec_ray_origin(s1);
    lemma_advanced(s2);
}

/// The light along a ray takes, for each time the ray may go from surface to
/// surface, no more numbers than `bounce_most` says.
pub proof fn lemma_ray_color_draws(ray: &Ray, depth: u16, scene: &Scene, s: Sampler)
    requires
        s.wf(),
        s.left() >= depth * Camera::bounce_most(scene),
    ensures
        Camera::spec_ray_color(ray, depth, scene, s).1.follows(
            &s,
            depth * Camera::bounce_most(scene),
        ),
    decreases depth,
{
    if depth > 0 {
        let bounce = Camera::bounce_most(scene);
        assert(depth * bounce == (depth - 1) * bounce + bounce) by (nonlinear_arith);
        assert((depth - 1) * bounce >= 0) by (nonlinear_arith)
            requires
                depth >= 1,
                bounce >= 0,
        ;
        lemma_hit_draws(&scene.world, ray, &Camera::spec_ahead(), s);
        let (found, s1) = scene.world.spec_hit(ray, &Camera::spec_ahead(), s);
        if let Some(hit) = found {
            let mat = scene.materials@[hit.material as int];
            lemma_scatter_draws(&mat, ray, &hit, s1);
            let (scatter_result, s2) = mat.spec_scatter(ray, &hit, s1);
            if let Some(scattered) = scatter_result {
                lemma_ray_color_draws(&scattered.scattered, (depth - 1) as u16, scene, s2);
            }
        }
    }
}

proof fn lemma_pixel_from_draws(
    camera: &Camera,
    scene: &Scene,
    col: u64,
    row: u64,
    left: nat,
    sum: Vec3,
    s: Sampler,
)
    requires
        s.wf(),
        s.left() >= left * camera.sample_most(scene),
    ensures
        camera.spec_pixel_from(scene, col, row, left, sum, s).1.follows(
            &s,
            left * camera.sample_most(scene),
        ),
    decreases left,
{
    if left > 0 {
        let sample = camera.sample_most(scene);
        let bounce = Camera::bounce_most(scene);
        assert(camera.max_depth * bounce >= 0) by (nonlinear_arith)
            requires
                camera.max_depth >= 0,
                bounce >= 0,
        ;
        assert(left * sample == (left - 1) * sample + sample) by (nonlinear_arith);
        assert((left - 1) * sample >= 0) by (nonlinear_arith)
            requires
                left >= 1,
                sample >= 0,
        ;
        lemma_get_ray_draws(camera, Real::from_u64(col), Real::from_u64(row), s);
        let (ray, s1) = camera.spec_get_ray(Real::from_u64(col), Real::from_u64(row), s);
        lemma_ray_color_draws(&ray, camera.max_depth, scene, s1);
        let (color, s2) = Camera::spec_ray_color(&ray, camera.max_depth, scene, s1);
        lemma_pixel_from_draws(camera, scene, col, row, (left - 1) as nat, sum.add(color), s2);
    }
}

/// The rays through a pixel take no more numbers than `spec_draws_most`
/// says: with a sampler that has that many left, no number is handed out
/// twice for a pixel.
pub proof fn lemma_pixel_draws_once(camera: &Camera, scene: &Scene, col: u64, row: u64, s: Sampler)
    requires
        s.wf(),
        s.left() >= camera.spec_draws_most(scene),
    ensures
        camera.spec_pixel(scene, col, row, s).1.follows(&s, camera.spec_draws_most(scene)),
{
    lemma_pixel_from_draws(
        camera,
        scene,
        col,
        row,
        camera.samples_per_pixel as nat,
        Vec3::zero(),
        s,
    );
}

/// The table of numbers that is drawn for a pixel holds what the rays
/// through the pixel take at most, and one more, where the machine's
/// integers hold that number.
pub proof fn lemma_table_suffices(camera: &Camera, scene: &Scene)
    requires
        scene.world.draws_most() < u64::MAX,
        camera.spec_draws_most(scene) < usize::MAX,
    ensures
        camera.spec_table_len(scene) == camera.spec_draws_most(scene) + 1,
{
}

/// The key by which a numbered row is put in its place: its number less two
/// to the power 63, which 64 signed bits hold and which rises with the
/// number.
pub open spec fn spec_row_key(number: u64) -> i64 {
    (number - 0x8000_0000_0000_0000) as i64
}

#[verifier::when_used_as_spec(spec_row_key)]
pub fn row_key(number: u64) -> (r: i64)
    ensures
        r == spec_row_key(number),
{
    if number >= 0x8000_0000_0000_0000 {
        (number - 0x8000_0000_0000_0000) as i64
    } else {
        (number as i64) + i64::MIN
    }
}

/// The key of each of some numbered rows.
pub open spec fn spec_tags(tagged: Seq<(u64, Vec<Vec3>)>) -> Seq<i64> {
    Seq::new(tagged.len(), |i: int| spec_row_key(tagged[i].0))
}

/// Numbered rows in the order of their numbers, without the numbers.
pub open spec fn spec_in_order(tagged: Seq<(u64, Vec<Vec3>)>) -> Seq<Seq<Vec3>> {
    let order = spec_sort(spec_places(tagged.len()), spec_tags(tagged));
    Seq::new(tagged.len(), |k: int| tagged[order[k] as int].1@)
}

impl Camera {
    /// The bytes of the picture whose rows are given with their numbers, in
    /// whatever order they were finished.
    pub fn assemble(&self, tagged: &Vec<(u64, Vec<Vec3>)>) -> (r: Vec<u8>)
        ensures
            r@ == self.spec_picture(spec_in_order(tagged@)),
    {
        let mut tags: Vec<i64> = Vec::new();
        let mut i: usize = 0;
        while i < tagged.len()
            invariant
                i <= tagged@.len(),
                tags@.len() == i,
                forall|k: int| 0 <= k < i ==> tags@[k] == spec_row_key(tagged@[k].0),
            decreases tagged@.len() - i,
        {
            tags.push(row_key(tagged[i].0));
            i = i + 1;
        }
        assert(tags@ =~= spec_tags(tagged@));
        let start = places(tagged.len());
        let order = sort_by_key(&start, &tags);
        let mut contents: Vec<u8> = Vec::new();
        write_header(&mut contents, self.image_width, self.image_height);
        let ghost rows = spec_in_order(tagged@);
        let mut k: usize = 0;
        while k < order.len()
            invariant
                k <= order@.len(),
                order@.len() == tagged@.len(),
                order@ == spec_sort(spec_places(tagged@.len()), spec_tags(tagged@)),
                all_below(order@, tagged@.len()),
                rows == spec_in_order(tagged@),
                contents@ == spec_header(self.image_width, self.image_height) + spec_rows_lines(
                    rows,
                    k as nat,
                    self.pixel_samples_scale,
                ),
            decreases order@.len() - k,
        {
            assert(order@[k as int] < tagged@.len());
            write_row(&mut contents, &tagged[order[k]].1, self.pixel_samples_scale);
            assert(rows[k as int] == tagged@[order@[k as int] as int].1@);
            assert(contents@ =~= spec_header(self.image_width, self.image_height)
                + spec_rows_lines(rows, (k + 1) as nat, self.pixel_samples_scale));
            k = k + 1;
        }
        contents
    }
}

/// Whole numbers below their count that rise from each to the next are the
/// numbers from 0 on in their order.
proof fn lemma_rising_fills(ks: Seq<int>, k: int)
    requires
        0 <= k < ks.len(),
        forall|i: int| 0 <= i < ks.len() ==> 0 <= #[trigger] ks[i] < ks.len(),
        forall|i: int| 0 <= i < ks.len() - 1 ==> #[trigger] ks[i] < ks[i + 1],
    ensures
        ks[k] == k,
{
    lemma_rising_from_below(ks, k);
    lemma_rising_from_above(ks, k);
}

proof fn lemma_rising_from_below(ks: Seq<int>, k: int)
    requires
        0 <= k < ks.len(),
        forall|i: int| 0 <= i < ks.len() ==> 0 <= #[trigger] ks[i] < ks.len(),
        forall|i: int| 0 <= i < ks.len() - 1 ==> #[trigger] ks[i] < ks[i + 1],
    ensures
        ks[k] >= k,
    decreases k,
{
    if k > 0 {
        lemma_rising_from_below(ks, k - 1);
        assert(ks[k - 1] < ks[k - 1 + 1]);
    }
}

proof fn lemma_rising_from_above(ks: Seq<int>, k: int)
    requires
        0 <= k < ks.len(),
        forall|i: int| 0 <= i < ks.len() ==> 0 <= #[trigger] ks[i] < ks.len(),
        forall|i: int| 0 <= i < ks.len() - 1 ==> #[trigger] ks[i] < ks[i + 1],
    ensures
        ks[k] <= k,
    decreases ks.len() - k,
{
    if k < ks.len() - 1 {
        lemma_rising_from_above(ks, k + 1);
        assert(ks[k] < ks[k + 1]);
    }
}

/// Where every row of a picture is there once under its number, the rows
/// come out in the order of their numbers, in whatever order they went in:
/// the row at the place `k` is the one that bears the number `k`. The picture
/// therefore does not depend on the order in which its rows were finished.
pub proof fn lemma_in_order_by_number(tagged: Seq<(u64, Vec<Vec3>)>, k: int, at: int)
    requires
        tagged.len() <= usize::MAX,
        forall|i: int| 0 <= i < tagged.len() ==> (#[trigger] tagged[i]).0 < tagged.len(),
        forall|i: int, j: int|
            0 <= i < j < tagged.len() ==> (#[trigger] tagged[i]).0 != (#[trigger] tagged[j]).0,
        0 <= at < tagged.len(),
        tagged[at].0 == k,
    ensures
        spec_in_order(tagged)[k] == tagged[at].1@,
{
    let start = spec_places(tagged.len());
    let tags = spec_tags(tagged);
    let order = spec_sort(start, tags);
    lemma_sort_permutes(start, tags);
    assert(start.no_duplicates());
    start.lemma_multiset_has_no_duplicates();
    order.lemma_multiset_has_no_duplicates_conv();
    assert forall|i: int| 0 <= i < order.len() implies (#[trigger] order[i]) < tagged.len() by {
        order.to_multiset_ensures();
        start.to_multiset_ensures();
        assert(order.contains(order[i]));
        assert(order.to_multiset().count(order[i]) > 0);
        assert(start.to_multiset().count(order[i]) > 0);
        assert(start.contains(order[i]));
        let j = choose|j: int| 0 <= j < start.len() && start[j] == order[i];
        assert(start[j] == j as usize);
    }
    let ks = Seq::new(order.len(), |i: int| tagged[order[i] as int].0 as int);
    assert forall|i: int| 0 <= i < ks.len() - 1 implies #[trigger] ks[i] < ks[i + 1] by {
        assert(tags[order[i] as int] <= tags[order[i + 1] as int]);
        assert(order[i] != order[i + 1]);
        let a = order[i] as int;
        let b = order[i + 1] as int;
        if a < b {
            assert(tagged[a].0 != tagged[b].0);
        } else {
            assert(tagged[b].0 != tagged[a].0);
        }
    }
    assert forall|i: int| 0 <= i < ks.len() implies 0 <= #[trigger] ks[i] < ks.len() by {
        assert(tagged[order[i] as int].0 < tagged.len());
    }
    lemma_rising_fills(ks, k);
    let found = order[k] as int;
    assert(tagged[found].0 == k);
    if found < at {
        assert(tagged[found].0 != tagged[at].0);
    } else if at < found {
        assert(tagged[at].0 != tagged[found].0);
    }
}

impl Camera {
    /// The sums of light of the first `n` pixels of a row from left to
    /// right, with the random numbers of a sampler, and the sampler that is
    /// left.
    pub open spec fn spec_row_upto(&self, scene: &Scene, row: u64, n: nat, s: Sampler) -> (
        Seq<Vec3>,
        Sampler,
    )
        decreases n,
    {
        if n == 0 {
            (Seq::empty(), s)
        } else {
            let (before, s1) = self.spec_row_upto(scene, row, (n - 1) as nat, s);
            let (color, s2) = self.spec_pixel(scene, (n - 1) as u64, row, s1);
            (before.push(color), s2)
        }
    }

    /// One row of the picture with the random numbers of a sampler.
    pub open spec fn spec_row(&self, scene: &Scene, row: u64, s: Sampler) -> (Seq<Vec3>, Sampler) {
        self.spec_row_upto(scene, row, self.image_width as nat, s)
    }

    /// One row of the picture with the random numbers of a sampler: the row
    /// is a function of the scene, the camera and those numbers.
    pub fn row_with(&self, scene: &Scene, row: u64, s: &mut Sampler) -> (r: Vec<Vec3>)
        requires
            old(s).wf(),
            scene.wf(),
        ensures
            final(s).wf(),
            (r@, *final(s)) == self.spec_row(scene, row, *old(s)),
            r@.len() == self.image_width,
    {
        let mut row_pixels: Vec<Vec3> = Vec::new();
        let mut col: u64 = 0;
        while col < self.image_width
            invariant
                col <= self.image_width,
                scene.wf(),
                s.wf(),
                row_pixels@.len() == col,
                (row_pixels@, *s) == self.spec_row_upto(scene, row, col as nat, *old(s)),
            decreases self.image_width - col,
        {
            let color = self.pixel_with(scene, col, row, s);
            row_pixels.push(color);
            col = col + 1;
        }
        row_pixels
    }

    /// The rows of the picture from the top down, each with the random
    /// numbers of the sampler at its place.
    pub open spec fn spec_rows_with(&self, scene: &Scene, samplers: Seq<Sampler>) -> Seq<
        Seq<Vec3>,
    > {
        Seq::new(
            self.image_height as nat,
            |row: int| self.spec_row(scene, row as u64, samplers[row]).0,
        )
    }

    /// The picture of a scene with the random numbers of one sampler for
    /// each row: its bytes are a function of the scene, the camera and those
    /// numbers. The rows are made from the bottom up and put in their order
    /// afterwards, which leaves the bytes as they are when the rows are made
    /// from the top down.
    pub fn render_with(&self, scene: &Scene, samplers: Vec<Sampler>) -> (r: Vec<u8>)
        requires
            scene.wf(),
            samplers@.len() == self.image_height,
            forall|i: int| 0 <= i < samplers@.len() ==> (#[trigger] samplers@[i]).wf(),
        ensures
            r@ == self.spec_picture(self.spec_rows_with(scene, samplers@)),
    {
        let ghost given = samplers@;
        let mut samplers = samplers;
        let mut tagged: Vec<(u64, Vec<Vec3>)> = Vec::new();
        let mut row: u64 = self.image_height;
        while row > 0
            invariant
                row <= self.image_height,
                scene.wf(),
                given.len() == self.image_height,
                forall|i: int| 0 <= i < given.len() ==> (#[trigger] given[i]).wf(),
                samplers@ == given.take(row as int),
                tagged@.len() == self.image_height - row,
                forall|k: int|
                    0 <= k < tagged@.len() ==> (#[trigger] tagged@[k]).0 == self.image_height - 1
                        - k && tagged@[k].1@ == self.spec_row(
                        scene,
                        tagged@[k].0,
                        given[tagged@[k].0 as int],
                    ).0,
            decreases row,
        {
            let mut s = samplers.pop().unwrap();
            row = row - 1;
            assert(s == given[row as int]);
            assert(samplers@ =~= given.take(row as int));
            let pixels = self.row_with(scene, row, &mut s);
            tagged.push((row, pixels));
        }
        let out = self.assemble(&tagged);
        proof {
            let rows = self.spec_rows_with(scene, given);
            assert forall|k: int| 0 <= k < rows.len() implies spec_in_order(tagged@)[k]
                == #[trigger] rows[k] by {
                let at = self.image_height - 1 - k;
                assert(tagged@[at].0 == k);
                lemma_in_order_by_number(tagged@, k, at);
            }
            assert(spec_in_order(tagged@) =~= rows);
        }
        out
    }
}

/// The lines of the first `n` rows depend on those rows alone.
pub proof fn lemma_rows_lines_prefix(a: Seq<Seq<Vec3>>, b: Seq<Seq<Vec3>>, n: nat, scale: Real)
    requires
        n <= a.len(),
        n <= b.len(),
        forall|k: int| 0 <= k < n ==> a[k] == b[k],
    ensures
        spec_rows_lines(a, n, scale) == spec_rows_lines(b, n, scale),
    decreases n,
{
    if n > 0 {
        lemma_rows_lines_prefix(a, b, (n - 1) as nat, scale);
    }
}

} // verus!
