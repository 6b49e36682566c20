//! Particles: colour ramps, kinds, and the colours particle effects pick.
//!
//! Positions, velocities and times of particles are floating point and
//! stay outside this module; what is decided here is which palette colour
//! and which kind each particle gets, given the random choices as inputs.

use vstd::prelude::*;

verus! {

/// Fewest particles the renderer keeps room for.
pub const MIN_PARTICLES: usize = 512;

/// Most particles the renderer keeps room for.
pub const MAX_PARTICLES: usize = 16384;

/// The colour animations of particles.
#[derive(Clone, Copy, Debug, PartialEq, Eq, Structural)]
pub enum RampId {
    ExplosionFast,
    ExplosionSlow,
    Fire,
}

/// The palette colours of a ramp, frame by frame.
pub open spec fn ramp_colors(id: RampId) -> Seq<u8> {
    match id {
        RampId::ExplosionFast => seq![0x6Fu8, 0x6D, 0x6B, 0x69, 0x67, 0x65, 0x63, 0x61],
        RampId::ExplosionSlow => seq![0x6Fu8, 0x6E, 0x6D, 0x6C, 0x6B, 0x6A, 0x68, 0x66],
        RampId::Fire => seq![0x6Du8, 0x6B, 0x06, 0x05, 0x04, 0x03],
    }
}

/// Frames per second of a ramp's animation.
pub open spec fn ramp_fps(id: RampId) -> u32 {
    match id {
        RampId::ExplosionFast => 10,
        RampId::ExplosionSlow => 5,
        RampId::Fire => 15,
    }
}

impl RampId {
    /// The palette colours of the ramp, frame by frame.
    pub fn colors(self) -> (r: Vec<u8>)
        ensures
            r@ == ramp_colors(self),
    {
        let r = match self {
            RampId::ExplosionFast => vec![0x6Fu8, 0x6D, 0x6B, 0x69, 0x67, 0x65, 0x63, 0x61],
            RampId::ExplosionSlow => vec![0x6Fu8, 0x6E, 0x6D, 0x6C, 0x6B, 0x6A, 0x68, 0x66],
            RampId::Fire => vec![0x6Du8, 0x6B, 0x06, 0x05, 0x04, 0x03],
        };
        assert(r@ =~= ramp_colors(self));
        r
    }

    /// Frames per second of the ramp's animation.
    pub fn fps(self) -> (r: u32)
        ensures
            r == ramp_fps(self),
    {
        match self {
            RampId::ExplosionFast => 10,
            RampId::ExplosionSlow => 5,
            RampId::Fire => 15,
        }
    }

    /// The colour of the ramp at animation frame `frame`, after skipping
    /// `frame_skip` frames; `None` once the animation is over.
    pub fn color(self, frame: usize, frame_skip: usize) -> (r: Option<u8>)
        requires
            frame + frame_skip <= usize::MAX,
        ensures
            frame + frame_skip < ramp_colors(self).len() ==> r == Some(
                ramp_colors(self)[frame + frame_skip],
            ),
            frame + frame_skip >= ramp_colors(self).len() ==> r is None,
    {
        let colors = self.colors();
        let i = frame + frame_skip;
        if i < colors.len() {
            Some(colors[i])
        } else {
            None
        }
    }
}

/// How a particle moves and changes colour.
#[derive(Clone, Copy, Debug, PartialEq, Eq, Structural)]
pub enum ParticleKind {
    /// Unaffected by gravity.
    Static,
    /// Affected by gravity.
    Grav,
    /// Fire and smoke: animated along the fire ramp, rising.
    Fire { frame_skip: usize },
    /// Explosion: animated along one of the explosion ramps, falling.
    Explosion { ramp: RampId, frame_skip: usize },
    /// Spawn death explosion; with no z-velocity it stays in its plane.
    Blob { has_z_velocity: bool },
}

/// Kinds of particle trail.
#[derive(Clone, Copy, Debug, PartialEq, Eq, Structural)]
pub enum TrailKind {
    Rocket,
    Smoke,
    Blood,
    TracerGreen,
    BloodSlight,
    TracerRed,
    Vore,
}

/// The colour of particle `i` of a cloud whose colours run from `start`
/// to `end`: the colours are used in turn.
pub fn cloud_color(start: u8, end: u8, i: usize) -> (r: u8)
    requires
        start <= end,
    ensures
        r == start + (i as int) % ((end - start + 1) as int),
        start <= r <= end,
{
    let span = (end - start) as usize + 1;
    let offset = i % span;
    (start as usize + offset) as u8
}

/// The colour of an impact particle: any colour (picked by `offset`) in the
/// block of eight that `color` belongs to.
pub fn impact_color(color: u8, offset: u8) -> (r: u8)
    requires
        offset < 8,
    ensures
        r == color - color % 8 + offset,
{
    let base = color & !7u8;
    assert(color & !7u8 == color - color % 8) by (bit_vector);
    base + offset
}

/// The colour of a tracer particle at step `step` of its trail: two shades
/// alternating every four steps.
pub open spec fn tracer_shade(step: i32) -> u8 {
    if step & 4 == 0 {
        0
    } else {
        8
    }
}

/// The kind and colour of the particle at `step` of a trail. The random
/// choices are inputs: `frame_skip` (below 4) for fire, `blood` for blood
/// and `vore` for vore trails.
pub fn trail_particle(kind: TrailKind, step: i32, frame_skip: usize, blood: u8, vore: u8) -> (r: (
    ParticleKind,
    u8,
))
    requires
        frame_skip < 4,
    ensures
        r == match kind {
            TrailKind::Rocket => (
                ParticleKind::Fire { frame_skip },
                ramp_colors(RampId::Fire)[frame_skip as int],
            ),
            TrailKind::Smoke => (
                ParticleKind::Fire { frame_skip: (frame_skip + 2) as usize },
                ramp_colors(RampId::Fire)[frame_skip + 2],
            ),
            TrailKind::Blood | TrailKind::BloodSlight => (ParticleKind::Grav, blood),
            TrailKind::TracerGreen => (ParticleKind::Static, (52 + tracer_shade(step)) as u8),
            TrailKind::TracerRed => (ParticleKind::Static, (230 + tracer_shade(step)) as u8),
            TrailKind::Vore => (ParticleKind::Static, vore),
        },
{
    let fire = RampId::Fire.colors();
    let shade: u8 = if step & 4 == 0 {
        0
    } else {
        8
    };
    match kind {
        TrailKind::Rocket => (ParticleKind::Fire { frame_skip }, fire[frame_skip]),
        TrailKind::Smoke => (ParticleKind::Fire { frame_skip: frame_skip + 2 }, fire[frame_skip + 2]),
        TrailKind::Blood | TrailKind::BloodSlight => (ParticleKind::Grav, blood),
        TrailKind::TracerGreen => (ParticleKind::Static, 52 + shade),
        TrailKind::TracerRed => (ParticleKind::Static, 230 + shade),
        TrailKind::Vore => (ParticleKind::Static, vore),
    }
}

/// A cloud of particles whose colours run from `color_start` to
/// `color_end`, used in turn, all of one kind and living `ttl_ms`
/// milliseconds.
#[derive(Clone, Copy, Debug, PartialEq, Eq, Structural)]
pub struct CloudSpec {
    pub count: usize,
    pub color_start: u8,
    pub color_end: u8,
    pub kind: ParticleKind,
    pub ttl_ms: i64,
}

/// How long explosion particles live, in milliseconds.
pub const EXPLOSION_TTL_MS: i64 = 5000;

/// The two clouds of an explosion, one per explosion ramp, each of 512
/// particles in the ramp's colour after the skipped frames (picked by
/// `fast_skip` and `slow_skip`, each below 4), living five seconds.
pub fn explosion_clouds(fast_skip: usize, slow_skip: usize) -> (r: Vec<CloudSpec>)
    requires
        fast_skip < 4,
        slow_skip < 4,
    ensures
        r@ == seq![
            CloudSpec {
                count: 512,
                color_start: ramp_colors(RampId::ExplosionFast)[fast_skip as int],
                color_end: ramp_colors(RampId::ExplosionFast)[fast_skip as int],
                kind: ParticleKind::Explosion { ramp: RampId::ExplosionFast, frame_skip: fast_skip },
                ttl_ms: EXPLOSION_TTL_MS,
            },
            CloudSpec {
                count: 512,
                color_start: ramp_colors(RampId::ExplosionSlow)[slow_skip as int],
                color_end: ramp_colors(RampId::ExplosionSlow)[slow_skip as int],
                kind: ParticleKind::Explosion { ramp: RampId::ExplosionSlow, frame_skip: slow_skip },
                ttl_ms: EXPLOSION_TTL_MS,
            },
        ],
{
    let fast = RampId::ExplosionFast.colors();
    let slow = RampId::ExplosionSlow.colors();
    let mut r: Vec<CloudSpec> = Vec::new();
    r.push(
        CloudSpec {
            count: 512,
            color_start: fast[fast_skip],
            color_end: fast[fast_skip],
            kind: ParticleKind::Explosion { ramp: RampId::ExplosionFast, frame_skip: fast_skip },
            ttl_ms: EXPLOSION_TTL_MS,
        },
    );
    r.push(
        CloudSpec {
            count: 512,
            color_start: slow[slow_skip],
            color_end: slow[slow_skip],
            kind: ParticleKind::Explosion { ramp: RampId::ExplosionSlow, frame_skip: slow_skip },
            ttl_ms: EXPLOSION_TTL_MS,
        },
    );
    assert(r@ =~= seq![r@[0], r@[1]]);
    r
}

/// The cloud of a colour explosion: 512 rising blobs whose colours cycle
/// from `start` to `end`, living five seconds.
pub fn color_explosion_cloud(start: u8, end: u8) -> (r: CloudSpec)
    requires
        start <= end,
    ensures
        r == (CloudSpec {
            count: 512,
            color_start: start,
            color_end: end,
            kind: ParticleKind::Blob { has_z_velocity: true },
            ttl_ms: EXPLOSION_TTL_MS,
        }),
{
    CloudSpec {
        count: 512,
        color_start: start,
        color_end: end,
        kind: ParticleKind::Blob { has_z_velocity: true },
        ttl_ms: EXPLOSION_TTL_MS,
    }
}

/// The spawn blob with lifetime `ttl_ms`: colours `start` to `end`.
pub open spec fn blob_cloud(start: u8, end: u8, rising: bool, ttl_ms: i64) -> CloudSpec {
    CloudSpec {
        count: 256,
        color_start: start,
        color_end: end,
        kind: ParticleKind::Blob { has_z_velocity: rising },
        ttl_ms,
    }
}

/// The clouds of a spawn's death explosion: for each of its two lifetimes,
/// one second and 1.4 seconds, 256 rising blobs in colours 66 to 71 and 256
/// flat blobs in colours 150 to 155.
pub fn spawn_explosion_clouds() -> (r: Vec<CloudSpec>)
    ensures
        r@ == seq![
            blob_cloud(66, 71, true, 1000),
            blob_cloud(150, 155, false, 1000),
            blob_cloud(66, 71, true, 1400),
            blob_cloud(150, 155, false, 1400),
        ],
{
    let mut r: Vec<CloudSpec> = Vec::new();
    let ttls: [i64; 2] = [1000, 1400];
    let mut i: usize = 0;
    while i < 2
        invariant
            i <= 2,
            ttls@ == seq![1000i64, 1400i64],
            r@.len() == 2 * i,
            i >= 1 ==> r@[0] == blob_cloud(66, 71, true, 1000) && r@[1] == blob_cloud(150, 155, false, 1000),
            i >= 2 ==> r@[2] == blob_cloud(66, 71, true, 1400) && r@[3] == blob_cloud(150, 155, false, 1400),
        decreases 2 - i,
    {
        let ttl = ttls[i];
        r.push(
            CloudSpec {
                count: 256,
                color_start: 66,
                color_end: 71,
                kind: ParticleKind::Blob { has_z_velocity: true },
                ttl_ms: ttl,
            },
        );
        r.push(
            CloudSpec {
                count: 256,
                color_start: 150,
                color_end: 155,
                kind: ParticleKind::Blob { has_z_velocity: false },
                ttl_ms: ttl,
            },
        );
        i = i + 1;
    }
    assert(r@ =~= seq![r@[0], r@[1], r@[2], r@[3]]);
    r
}

/// A particle as a cloud spawns it: its kind and colour, and when it was
/// spawned and expires, in milliseconds of game time.
#[derive(Clone, Copy, Debug, PartialEq, Eq, Structural)]
pub struct ParticleSpec {
    pub kind: ParticleKind,
    pub color: u8,
    pub spawned_ms: i64,
    pub expire_ms: i64,
}

/// The particles a cloud spawns at game time `time_ms`: particle `k` has
/// the cloud's kind, colour `color_start + k % (color_end - color_start + 1)`,
/// and lives from `time_ms` for the cloud's lifetime.
pub fn cloud_particles(cloud: &CloudSpec, time_ms: i64) -> (r: Vec<ParticleSpec>)
    requires
        cloud.color_start <= cloud.color_end,
        i64::MIN <= time_ms + cloud.ttl_ms <= i64::MAX,
    ensures
        r@.len() == cloud.count,
        forall|k: int|
            0 <= k < cloud.count ==> #[trigger] r@[k] == (ParticleSpec {
                kind: cloud.kind,
                color: (cloud.color_start + k % ((cloud.color_end - cloud.color_start + 1) as int)) as u8,
                spawned_ms: time_ms,
                expire_ms: (time_ms + cloud.ttl_ms) as i64,
            }),
{
    let mut r: Vec<ParticleSpec> = Vec::new();
    let expire = time_ms + cloud.ttl_ms;
    let mut k: usize = 0;
    while k < cloud.count
        invariant
            k <= cloud.count,
            r@.len() == k,
            cloud.color_start <= cloud.color_end,
            expire == time_ms + cloud.ttl_ms,
            forall|j: int|
                0 <= j < k ==> #[trigger] r@[j] == (ParticleSpec {
                    kind: cloud.kind,
                    color: (cloud.color_start + j % ((cloud.color_end - cloud.color_start + 1) as int)) as u8,
                    spawned_ms: time_ms,
                    expire_ms: expire,
                }),
        decreases cloud.count - k,
    {
        let color = cloud_color(cloud.color_start, cloud.color_end, k);
        r.push(ParticleSpec { kind: cloud.kind, color, spawned_ms: time_ms, expire_ms: expire });
        k = k + 1;
    }
    r
}

/// A cloud whose particles each pick a colour in `color_min..color_end`
/// and a lifetime in `ttl_min_ms..ttl_end_ms` at random.
#[derive(Clone, Copy, Debug, PartialEq, Eq, Structural)]
pub struct ScatterSpec {
    pub count: usize,
    pub color_min: u8,
    pub color_end: u8,
    pub ttl_min_ms: i64,
    pub ttl_end_ms: i64,
    pub kind: ParticleKind,
}

/// A lava splash: a grid of 32 by 32 falling particles in the colours of
/// row 14 (224 to 231), living 2 to 2.64 seconds.
pub fn lava_splash() -> (r: ScatterSpec)
    ensures
        r == (ScatterSpec {
            count: 1024,
            color_min: 224,
            color_end: 232,
            ttl_min_ms: 2000,
            ttl_end_ms: 2640,
            kind: ParticleKind::Grav,
        }),
{
    ScatterSpec {
        count: 1024,
        color_min: 224,
        color_end: 232,
        ttl_min_ms: 2000,
        ttl_end_ms: 2640,
        kind: ParticleKind::Grav,
    }
}

/// A teleporter warp: a lattice of 8 by 8 by 14 falling grey particles
/// (colours 7 to 13), living 0.2 to 0.34 seconds.
pub fn teleporter_warp() -> (r: ScatterSpec)
    ensures
        r == (ScatterSpec {
            count: 896,
            color_min: 7,
            color_end: 14,
            ttl_min_ms: 200,
            ttl_end_ms: 340,
            kind: ParticleKind::Grav,
        }),
{
    ScatterSpec {
        count: 896,
        color_min: 7,
        color_end: 14,
        ttl_min_ms: 200,
        ttl_end_ms: 340,
        kind: ParticleKind::Grav,
    }
}

} // verus!
