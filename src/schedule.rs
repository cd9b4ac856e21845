use vstd::prelude::*;

verus! {

/// The two kinds of compute pass of a frame.
#[derive(Clone, Copy, Debug, PartialEq, Eq, Structural)]
pub enum PassKind {
    /// Walks the rays of one bounce level against the scene.
    March,
    /// Shades the hits of one bounce level with the light gathered one level deeper.
    Shade,
}

/// One compute pass: its kind and the bounce level whose buffers it binds.
#[derive(Clone, Copy, Debug, PartialEq, Eq, Structural)]
pub struct Pass {
    pub kind: PassKind,
    pub level: u32,
}

/// The compute passes of one frame: a march pass for every level from the camera
/// outwards, then a shade pass for every level from the deepest back to the
/// camera, so that each level is shaded after the level it gathers light from.
pub fn frame_passes(max_ray_depth: u32) -> (r: Vec<Pass>)
    ensures
        r@.len() == 2 * (max_ray_depth + 1),
        forall|i: int|
            0 <= i <= max_ray_depth ==> #[trigger] r@[i] == (Pass { kind: PassKind::March, level: i as u32 }),
        forall|i: int|
            max_ray_depth < i < 2 * (max_ray_depth + 1) ==> #[trigger] r@[i] == (Pass {
                kind: PassKind::Shade,
                level: (2 * max_ray_depth + 1 - i) as u32,
            }),
{
    let mut passes: Vec<Pass> = Vec::new();
    let d = max_ray_depth as u64;
    let mut i: u64 = 0;
    while i <= d
        invariant
            d == max_ray_depth,
            i <= d + 1,
            passes@.len() == i,
            forall|k: int| 0 <= k < i ==> #[trigger] passes@[k] == (Pass { kind: PassKind::March, level: k as u32 }),
        decreases d + 1 - i,
    {
        passes.push(Pass { kind: PassKind::March, level: i as u32 });
        i = i + 1;
    }
    let mut j: u64 = 0;
    while j <= d
        invariant
            d == max_ray_depth,
            j <= d + 1,
            passes@.len() == d + 1 + j,
            forall|k: int| 0 <= k <= d ==> #[trigger] passes@[k] == (Pass { kind: PassKind::March, level: k as u32 }),
            forall|k: int|
                d < k < d + 1 + j ==> #[trigger] passes@[k] == (Pass {
                    kind: PassKind::Shade,
                    level: (2 * d + 1 - k) as u32,
                }),
        decreases d + 1 - j,
    {
        passes.push(Pass { kind: PassKind::Shade, level: (d - j) as u32 });
        j = j + 1;
    }
    passes
}

/// Buffers that the passes of one bounce level bind. Rays and colors are
/// double-buffered across levels: a level reads the rays that the level before
/// it wrote and writes the rays of the next, and shading reads the color that
/// the next level produced.
#[derive(Clone, Copy, Debug, PartialEq, Eq, Structural)]
pub struct LevelBindings {
    pub ray_in: u64,
    pub ray_out: u64,
    pub hit: u64,
    pub random: u64,
    pub color_out: u64,
    pub color_in: u64,
}

pub fn level_bindings(level: u32) -> (r: LevelBindings)
    ensures
        r == (LevelBindings {
            ray_in: level as u64,
            ray_out: (level + 1) as u64,
            hit: level as u64,
            random: level as u64,
            color_out: level as u64,
            color_in: (level + 1) as u64,
        }),
{
    let l = level as u64;
    LevelBindings { ray_in: l, ray_out: l + 1, hit: l, random: l, color_out: l, color_in: l + 1 }
}

/// Bytes per pixel of a ray: origin and direction, four floats each.
pub const RAY_BYTES: u64 = 32;

/// Bytes per pixel of a color: four floats.
pub const COLOR_BYTES: u64 = 16;

/// Bytes per pixel of a hit: a flag and four floats, padded to eight words.
pub const HIT_BYTES: u64 = 32;

/// Bytes per pixel of random data: one word.
pub const RANDOM_BYTES: u64 = 4;

/// Counts and sizes of the per-level GPU buffers of a renderer.
#[derive(Clone, Copy, Debug, PartialEq, Eq, Structural)]
pub struct BufferPlan {
    pub pixel_count: u64,
    pub ray_buffers: u64,
    pub color_buffers: u64,
    pub hit_buffers: u64,
    pub random_buffers: u64,
    pub bind_groups: u64,
    pub ray_buffer_size: u64,
    pub color_buffer_size: u64,
    pub hit_buffer_size: u64,
    pub random_buffer_size: u64,
    pub accumulate_buffer_size: u64,
}

/// The buffers for a `width` by `height` image traced to `max_ray_depth`
/// bounces: rays and colors for every level and one past the deepest, hits,
/// random data and a bind group for every level. `None` when a buffer size does
/// not fit in 64 bits.
pub fn buffer_plan(width: u32, height: u32, max_ray_depth: u32) -> (r: Option<BufferPlan>)
    ensures
        r is None <==> RAY_BYTES * (width * height) > u64::MAX,
        r is Some ==> r->Some_0 == (BufferPlan {
            pixel_count: (width * height) as u64,
            ray_buffers: (max_ray_depth + 2) as u64,
            color_buffers: (max_ray_depth + 2) as u64,
            hit_buffers: (max_ray_depth + 1) as u64,
            random_buffers: (max_ray_depth + 1) as u64,
            bind_groups: (max_ray_depth + 1) as u64,
            ray_buffer_size: (RAY_BYTES * (width * height)) as u64,
            color_buffer_size: (COLOR_BYTES * (width * height)) as u64,
            hit_buffer_size: (HIT_BYTES * (width * height)) as u64,
            random_buffer_size: (RANDOM_BYTES * (width * height)) as u64,
            accumulate_buffer_size: (COLOR_BYTES * (width * height)) as u64,
        }),
{
    let w = width as u64;
    let h = height as u64;
    assert(w * h <= 0xffff_fffe_0000_0001) by (nonlinear_arith)
        requires
            w <= 0xffff_ffff,
            h <= 0xffff_ffff,
    ;
    let pixels: u64 = w * h;
    if pixels > u64::MAX / RAY_BYTES {
        return None;
    }
    let d = max_ray_depth as u64;
    Some(
        BufferPlan {
            pixel_count: pixels,
            ray_buffers: d + 2,
            color_buffers: d + 2,
            hit_buffers: d + 1,
            random_buffers: d + 1,
            bind_groups: d + 1,
            ray_buffer_size: RAY_BYTES * pixels,
            color_buffer_size: COLOR_BYTES * pixels,
            hit_buffer_size: HIT_BYTES * pixels,
            random_buffer_size: RANDOM_BYTES * pixels,
            accumulate_buffer_size: COLOR_BYTES * pixels,
        },
    )
}

/// Column and row of the pixel at `index` in an image `width` pixels wide,
/// stored row by row.
pub fn pixel_position(index: u64, width: u32) -> (r: (u64, u64))
    requires
        width > 0,
    ensures
        r == (index % width as u64, index / width as u64),
        r.1 * width + r.0 == index,
{
    let w = width as u64;
    let col = index % w;
    let row = index / w;
    assert(row * w + col == index) by (nonlinear_arith)
        requires
            w > 0,
            col == index % w,
            row == index / w,
    ;
    (col, row)
}

} // verus!
