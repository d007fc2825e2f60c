//! The pixel sampler and render loop.
//!
//! Every pixel averages `samples` jittered camera rays, gamma-corrects
//! the average by a componentwise square root, and scales it to a byte;
//! `pixel_ok` states exactly that, pinning every rendered pixel to an
//! average of samples each admitted by the path estimator's own
//! postcondition. Each pixel draws from its own generator, seeded from
//! the render seed and the pixel's index alone, so the image is a
//! function of the scene, the camera and the seed — workers may split
//! the pixels any way they like without changing a single pixel or
//! sharing any state.

use vstd::prelude::*;
use crate::camera::{cam_ray, Camera};
use crate::fixed::{
    div_fix, fdiv, sqrt_fix, sqrt_floor, tdiv, lemma_sqrt_le, lemma_tdiv_le, lemma_tdiv_nonneg,
};
use crate::hitable::Hitable;
use crate::hitable_list::HitableList;
use crate::image::{Image, Pixel};
use crate::ray::{color_ok, Ray};
use crate::rng::Rng;
use crate::vec3::{sv_add, sv_len, v3, Vec3};

verus! {

/// The byte level of one gamma-corrected channel: the square root of
/// the channel scaled to 0..255.
pub open spec fn gamma_level(c: int) -> int {
    tdiv(255 * sqrt_floor(c * 65536), 65536)
}

/// The componentwise sum of a trace of sample colors.
pub open spec fn sum_color(trace: Seq<(int, int, int)>) -> (int, int, int)
    decreases trace.len(),
{
    if trace.len() == 0 {
        (0int, 0int, 0int)
    } else {
        sv_add(sum_color(trace.drop_last()), trace.last())
    }
}

/// The normalized image coordinate of pixel index `i` jittered by `j`
/// across one pixel, over an image extent of `n` pixels.
pub open spec fn jitter_coord(i: int, j: int, n: int) -> int {
    fdiv(i * 65536 + j, n * 65536)
}

/// The witness data of one admissible sample of pixel `(x, y)`: the
/// sub-pixel jitters, the lens-disk point, and the camera ray cast
/// through the jittered coordinates, whose estimate the path
/// estimator's own postcondition `color_ok` admits.
pub open spec fn sample_witness_ok(
    l: Seq<Hitable>,
    cam: Camera,
    x: int,
    y: int,
    width: int,
    height: int,
    sample: (int, int, int),
    ju: int,
    jv: int,
    r: Ray,
    d: (int, int, int),
) -> bool {
    &&& 0 <= ju < 65536
    &&& 0 <= jv < 65536
    &&& sv_len(d) < 65536
    &&& d.2 == 0
    &&& (v3(r.origin), v3(r.direction)) == cam_ray(
        cam,
        jitter_coord(x, ju, width),
        jitter_coord(y, jv, height),
        d,
    )
    &&& color_ok(l, r, 0, sample)
}

/// One admissible sample of pixel `(x, y)`: a camera ray cast through
/// sub-pixel-jittered coordinates and evaluated by the path estimator's
/// own postcondition, `color_ok`.
pub open spec fn sample_ok(
    l: Seq<Hitable>,
    cam: Camera,
    x: int,
    y: int,
    width: int,
    height: int,
    sample: (int, int, int),
) -> bool {
    exists|ju: int, jv: int, r: Ray, d: (int, int, int)|
        sample_witness_ok(l, cam, x, y, width, height, sample, ju, jv, r, d)
}

/// A trace of samples that accounts for a rendered pixel: one
/// admissible sample per draw, and each channel of the pixel the
/// gamma-corrected byte of the trace's averaged channel.
pub open spec fn trace_ok(
    l: Seq<Hitable>,
    cam: Camera,
    x: int,
    y: int,
    width: int,
    height: int,
    samples: int,
    p: Pixel,
    trace: Seq<(int, int, int)>,
) -> bool {
    &&& trace.len() == samples
    &&& (forall|i: int|
        0 <= i < trace.len() ==> sample_ok(l, cam, x, y, width, height, #[trigger] trace[i]))
    &&& p.red == gamma_level(tdiv(sum_color(trace).0, samples))
    &&& p.green == gamma_level(tdiv(sum_color(trace).1, samples))
    &&& p.blue == gamma_level(tdiv(sum_color(trace).2, samples))
}

/// What a rendered pixel must be: the gamma-corrected componentwise
/// average of `samples` admissible samples of `(x, y)`. A constant
/// pixel cannot satisfy this wherever the scene pins the samples — over
/// an empty scene, for instance, every sample is forced to the sky.
pub open spec fn pixel_ok(
    l: Seq<Hitable>,
    cam: Camera,
    x: int,
    y: int,
    width: int,
    height: int,
    samples: int,
    p: Pixel,
) -> bool {
    exists|trace: Seq<(int, int, int)>|
        trace_ok(l, cam, x, y, width, height, samples, p, trace)
}

/// Scale a gamma-corrected channel to a byte.
fn to_byte(g: i64) -> (b: u8)
    requires
        0 <= g <= 65536,
    ensures
        b as int == tdiv(255 * g as int, 65536),
{
    proof {
        lemma_tdiv_le(255 * g as int, 65536, 255);
    }
    ((255 * g) / 65536) as u8
}

/// Over the empty scene the path estimator can only return the sky of
/// its ray's direction.
proof fn lemma_color_ok_empty(ray: Ray, depth: int, c: (int, int, int))
    requires
        color_ok(Seq::<Hitable>::empty(), ray, depth, c),
    ensures
        c == crate::ray::sky_color_s(v3(ray.direction)),
        c.2 == 65536,
{
    assert(crate::hitable_list::scene_geo(
        Seq::<Hitable>::empty(),
        ray,
        crate::fixed::T_NEAR as int,
        crate::fixed::T_FAR as int,
    ).is_none());
    crate::ray::lemma_sky_on_segment(v3(ray.direction));
}

/// A trace whose every sample has a full blue channel sums to a full
/// blue channel.
proof fn lemma_sum_full_blue(trace: Seq<(int, int, int)>)
    requires
        forall|i: int| 0 <= i < trace.len() ==> (#[trigger] trace[i]).2 == 65536,
    ensures
        sum_color(trace).2 == trace.len() * 65536,
    decreases trace.len(),
{
    if trace.len() > 0 {
        lemma_sum_full_blue(trace.drop_last());
    }
}

/// Zero primitives are not an error: every ray misses, every sample is
/// the sky, and — since the sky's blue channel is exactly full for
/// every direction — every pixel an empty scene renders has a full
/// blue byte. Shown from `pixel_ok` alone.
pub proof fn lemma_empty_scene_renders_full_blue(
    cam: Camera,
    x: int,
    y: int,
    width: int,
    height: int,
    samples: int,
    p: Pixel,
)
    requires
        0 < samples,
        pixel_ok(Seq::<Hitable>::empty(), cam, x, y, width, height, samples, p),
    ensures
        p.blue == 255,
{
    let trace = choose|trace: Seq<(int, int, int)>|
        trace_ok(Seq::<Hitable>::empty(), cam, x, y, width, height, samples, p, trace);
    assert forall|i: int| 0 <= i < trace.len() implies (#[trigger] trace[i]).2 == 65536 by {
        assert(sample_ok(Seq::<Hitable>::empty(), cam, x, y, width, height, trace[i]));
        let (ju, jv, r, d) = choose|ju: int, jv: int, r: Ray, d: (int, int, int)|
            sample_witness_ok(
                Seq::<Hitable>::empty(),
                cam,
                x,
                y,
                width,
                height,
                trace[i],
                ju,
                jv,
                r,
                d,
            );
        lemma_color_ok_empty(r, 0, trace[i]);
    }
    lemma_sum_full_blue(trace);
    vstd::arithmetic::div_mod::lemma_div_multiples_vanish(65536, samples);
    assert(tdiv(sum_color(trace).2, samples) == 65536);
    crate::fixed::lemma_sqrt_floor_is(65536int * 65536, 65536);
    vstd::arithmetic::div_mod::lemma_div_multiples_vanish(255, 65536);
    assert(gamma_level(65536) == 255);
}

/// Evaluate one pixel: average `samples` jittered rays and convert.
pub fn render_pixel(
    list: &HitableList,
    camera: &Camera,
    x: u32,
    y: u32,
    width: u32,
    height: u32,
    samples: u32,
    rng: &mut Rng,
) -> (p: Pixel)
    requires
        list.wf(),
        camera.wf(),
        0 < width <= 16384,
        0 < height <= 16384,
        x < width,
        y < height,
        0 < samples <= 65536,
    ensures
        pixel_ok(
            list.list@,
            *camera,
            x as int,
            y as int,
            width as int,
            height as int,
            samples as int,
            p,
        ),
{
    let mut col: Vec3 = Vec3 { x: 0, y: 0, z: 0 };
    let mut s: u32 = 0;
    let ghost mut trace: Seq<(int, int, int)> = Seq::empty();
    proof {
        assert(sum_color(trace) == (0int, 0int, 0int));
    }
    while s < samples
        invariant
            list.wf(),
            camera.wf(),
            0 < width <= 16384,
            0 < height <= 16384,
            x < width,
            y < height,
            0 < samples <= 65536,
            s <= samples,
            0 <= col.x <= s * 65536,
            0 <= col.y <= s * 65536,
            0 <= col.z <= s * 65536,
            trace.len() == s,
            col.x as int == sum_color(trace).0,
            col.y as int == sum_color(trace).1,
            col.z as int == sum_color(trace).2,
            forall|i: int|
                0 <= i < trace.len() ==> sample_ok(
                    list.list@,
                    *camera,
                    x as int,
                    y as int,
                    width as int,
                    height as int,
                    #[trigger] trace[i],
                ),
        decreases samples - s,
    {
        let ju: i64 = rng.next_unit();
        let jv: i64 = rng.next_unit();
        let un: i64 = (x as i64) * 65536 + ju;
        let ud: i64 = (width as i64) * 65536;
        let vn: i64 = (y as i64) * 65536 + jv;
        let vd: i64 = (height as i64) * 65536;
        proof {
            lemma_tdiv_le(un as int * 65536, ud as int, 65536);
            lemma_tdiv_le(vn as int * 65536, vd as int, 65536);
            lemma_tdiv_nonneg(un as int * 65536, ud as int);
            lemma_tdiv_nonneg(vn as int * 65536, vd as int);
        }
        let uu: i64 = div_fix(un, ud);
        let vv: i64 = div_fix(vn, vd);
        let ray = camera.get_ray(uu, vv, rng);
        let sample: Vec3 = ray.color(list, 0, rng);
        proof {
            let d = choose|d: (int, int, int)|
                sv_len(d) < 65536 && d.2 == 0 && (v3(ray.origin), v3(ray.direction)) == cam_ray(
                    *camera,
                    uu as int,
                    vv as int,
                    d,
                );
            assert(uu as int == jitter_coord(x as int, ju as int, width as int));
            assert(vv as int == jitter_coord(y as int, jv as int, height as int));
            assert((v3(ray.origin), v3(ray.direction)) == cam_ray(
                *camera,
                jitter_coord(x as int, ju as int, width as int),
                jitter_coord(y as int, jv as int, height as int),
                d,
            ));
            assert(sample_witness_ok(
                list.list@,
                *camera,
                x as int,
                y as int,
                width as int,
                height as int,
                v3(sample),
                ju as int,
                jv as int,
                ray,
                d,
            ));
            assert(sample_ok(
                list.list@,
                *camera,
                x as int,
                y as int,
                width as int,
                height as int,
                v3(sample),
            ));
            let prev = trace;
            trace = trace.push(v3(sample));
            assert(trace.drop_last() =~= prev);
            assert(trace.last() == v3(sample));
            assert(sum_color(trace) == sv_add(sum_color(prev), v3(sample)));
        }
        col = col.plus(sample);
        s = s + 1;
    }
    let avg: Vec3 = Vec3 {
        x: col.x / (samples as i64),
        y: col.y / (samples as i64),
        z: col.z / (samples as i64),
    };
    proof {
        lemma_tdiv_le(col.x as int, samples as int, 65536);
        lemma_tdiv_le(col.y as int, samples as int, 65536);
        lemma_tdiv_le(col.z as int, samples as int, 65536);
        lemma_tdiv_nonneg(col.x as int, samples as int);
        lemma_tdiv_nonneg(col.y as int, samples as int);
        lemma_tdiv_nonneg(col.z as int, samples as int);
    }
    let gx: i64 = sqrt_fix(avg.x);
    let gy: i64 = sqrt_fix(avg.y);
    let gz: i64 = sqrt_fix(avg.z);
    proof {
        lemma_sqrt_le(avg.x as int * 65536, 65536);
        lemma_sqrt_le(avg.y as int * 65536, 65536);
        lemma_sqrt_le(avg.z as int * 65536, 65536);
    }
    let p: Pixel = Pixel { red: to_byte(gx), green: to_byte(gy), blue: to_byte(gz) };
    proof {
        assert(p.red == gamma_level(tdiv(sum_color(trace).0, samples as int)));
        assert(p.green == gamma_level(tdiv(sum_color(trace).1, samples as int)));
        assert(p.blue == gamma_level(tdiv(sum_color(trace).2, samples as int)));
        assert(trace_ok(
            list.list@,
            *camera,
            x as int,
            y as int,
            width as int,
            height as int,
            samples as int,
            p,
            trace,
        ));
        assert(pixel_ok(
            list.list@,
            *camera,
            x as int,
            y as int,
            width as int,
            height as int,
            samples as int,
            p,
        ));
    }
    p
}

/// Render one scanline; each pixel gets its own generator derived from
/// the seed and the pixel index, so scanlines may be rendered in any
/// order or in parallel.
pub fn render_row(
    list: &HitableList,
    camera: &Camera,
    y: u32,
    width: u32,
    height: u32,
    samples: u32,
    seed: u64,
) -> (row: Vec<Pixel>)
    requires
        list.wf(),
        camera.wf(),
        0 < width <= 16384,
        0 < height <= 16384,
        y < height,
        0 < samples <= 65536,
    ensures
        row@.len() == width,
        forall|x: int|
            0 <= x < width ==> pixel_ok(
                list.list@,
                *camera,
                x,
                y as int,
                width as int,
                height as int,
                samples as int,
                #[trigger] row@[x],
            ),
{
    let mut row: Vec<Pixel> = Vec::new();
    let mut x: u32 = 0;
    while x < width
        invariant
            list.wf(),
            camera.wf(),
            0 < width <= 16384,
            0 < height <= 16384,
            y < height,
            0 < samples <= 65536,
            x <= width,
            row@.len() == x,
            forall|xi: int|
                0 <= xi < x ==> pixel_ok(
                    list.list@,
                    *camera,
                    xi,
                    y as int,
                    width as int,
                    height as int,
                    samples as int,
                    #[trigger] row@[xi],
                ),
        decreases width - x,
    {
        proof {
            assert(y as int * width as int <= 0x1000_0000) by (nonlinear_arith)
                requires
                    0 <= y as int <= 16384,
                    0 <= width as int <= 16384,
            ;
        }
        let index: u64 = (y as u64) * (width as u64) + (x as u64);
        let mut rng: Rng = Rng::stream(seed, index);
        let p: Pixel = render_pixel(list, camera, x, y, width, height, samples, &mut rng);
        row.push(p);
        x = x + 1;
    }
    row
}

/// Render the whole image, bottom scanline first.
pub fn render(
    list: &HitableList,
    camera: &Camera,
    width: u32,
    height: u32,
    samples: u32,
    seed: u64,
) -> (img: Image)
    requires
        list.wf(),
        camera.wf(),
        0 < width <= 16384,
        0 < height <= 16384,
        0 < samples <= 65536,
    ensures
        img.wf(),
        img.width == width,
        img.height == height,
        forall|yi: int, xi: int|
            0 <= yi < height && 0 <= xi < width ==> pixel_ok(
                list.list@,
                *camera,
                xi,
                yi,
                width as int,
                height as int,
                samples as int,
                #[trigger] img.pixels@[yi]@[xi],
            ),
{
    let mut pixels: Vec<Vec<Pixel>> = Vec::new();
    let mut y: u32 = 0;
    while y < height
        invariant
            list.wf(),
            camera.wf(),
            0 < width <= 16384,
            0 < height <= 16384,
            0 < samples <= 65536,
            y <= height,
            pixels@.len() == y,
            forall|i: int| 0 <= i < pixels@.len() ==> (#[trigger] pixels@[i])@.len() == width,
            forall|yi: int, xi: int|
                0 <= yi < y && 0 <= xi < width ==> pixel_ok(
                    list.list@,
                    *camera,
                    xi,
                    yi,
                    width as int,
                    height as int,
                    samples as int,
                    #[trigger] pixels@[yi]@[xi],
                ),
        decreases height - y,
    {
        let row: Vec<Pixel> = render_row(list, camera, y, width, height, samples, seed);
        pixels.push(row);
        y = y + 1;
    }
    Image { width, height, pixels }
}

} // verus!
