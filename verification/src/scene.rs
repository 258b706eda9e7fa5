//! The transform hierarchy: a parent-indexed arena of nodes, each with a
//! local translation, a local yaw about the vertical axis, an optional
//! spinner (`Rotator`) and an optional body tag.  Every node's parent
//! comes earlier in the arena, so the tree is acyclic by construction
//! and world transforms resolve by walking up.

use vstd::prelude::*;
use crate::fixed::{SCALE, abs_i, divt, mul_div, emod64, lemma_divt_prod_le};
use crate::vec3::Vec3Fp;
use crate::trig::{TAU_FP, rot_y_x, rot_y_z, rotate_y};
use crate::frame::DT_LIMIT;

verus! {

/// Most nodes a scene arena may hold.
pub const NODES_MAX: usize = 256;

/// Largest magnitude of a local translation component (10000 world
/// units).
pub const OFFSET_LIMIT: i64 = 10_000_000_000;

/// Largest magnitude of an angular speed (1000 radians per second).
pub const SPEED_LIMIT: i64 = 1_000_000_000;

/// Bound on any world-position component a well-formed arena can
/// produce.
pub const WORLD_LIMIT: i64 = 6_000_000_000_000;

/// Spins its node's subtree about the vertical axis at a fixed signed
/// angular speed, in fixed-point radians per second.
#[derive(Clone, Copy, PartialEq, Eq, Structural, Debug)]
pub struct Rotator {
    pub speed: i64,
}

/// Category tag of a leaf body, a closed set used for lookups.
#[derive(Clone, Copy, PartialEq, Eq, Structural, Debug)]
pub enum Body {
    Star,
    Planet,
    Station,
}

/// One transform node: local translation, local yaw, optional spinner
/// and optional body tag.
#[derive(Clone, Copy, PartialEq, Eq, Structural, Debug)]
pub struct SceneNode {
    pub parent: Option<usize>,
    pub offset: Vec3Fp,
    pub yaw: i64,
    pub rotator: Option<Rotator>,
    pub body: Option<Body>,
}

/// The whole hierarchy; index order is creation order, parents first.
#[derive(Clone, Debug)]
pub struct SceneArena {
    pub nodes: Vec<SceneNode>,
}

impl SceneNode {
    /// Parent earlier in the arena, normalized yaw, bounded fields.
    pub open spec fn wf(self, i: int) -> bool {
        &&& match self.parent {
            Some(p) => p < i,
            None => true,
        }
        &&& self.offset.in_range(OFFSET_LIMIT as int)
        &&& 0 <= self.yaw < TAU_FP
        &&& match self.rotator {
            Some(r) => -SPEED_LIMIT <= r.speed <= SPEED_LIMIT,
            None => true,
        }
    }
}

impl SceneArena {
    /// Every node well formed at its own index; bounded node count.
    pub open spec fn wf(self) -> bool {
        &&& self.nodes.len() <= NODES_MAX
        &&& forall|i: int| 0 <= i < self.nodes.len() ==> (#[trigger] self.nodes@[i]).wf(i)
    }
}

/// Accumulated world yaw of node `i`: yaws about one axis add up the
/// ancestor chain, modulo a full turn.
pub open spec fn world_yaw(arena: SceneArena, i: int) -> int
    decreases i,
{
    let n = arena.nodes@[i];
    match n.parent {
        None => n.yaw as int,
        Some(p) => if p < i {
            (world_yaw(arena, p as int) + n.yaw) % (TAU_FP as int)
        } else {
            0
        },
    }
}

/// World x of node `i`: the parent's position plus the local offset
/// rotated by the parent's accumulated yaw.
pub open spec fn world_x(arena: SceneArena, i: int) -> int
    decreases i,
{
    let n = arena.nodes@[i];
    match n.parent {
        None => n.offset.x as int,
        Some(p) => if p < i {
            world_x(arena, p as int) + rot_y_x(n.offset, world_yaw(arena, p as int))
        } else {
            0
        },
    }
}

/// World y of node `i`: heights add up unrotated.
pub open spec fn world_y(arena: SceneArena, i: int) -> int
    decreases i,
{
    let n = arena.nodes@[i];
    match n.parent {
        None => n.offset.y as int,
        Some(p) => if p < i {
            world_y(arena, p as int) + n.offset.y
        } else {
            0
        },
    }
}

/// World z of node `i`.
pub open spec fn world_z(arena: SceneArena, i: int) -> int
    decreases i,
{
    let n = arena.nodes@[i];
    match n.parent {
        None => n.offset.z as int,
        Some(p) => if p < i {
            world_z(arena, p as int) + rot_y_z(n.offset, world_yaw(arena, p as int))
        } else {
            0
        },
    }
}

/// Resolves the accumulated yaw of a node by walking up the arena.
pub fn node_world_yaw(arena: &SceneArena, i: usize) -> (r: i64)
    requires
        arena.wf(),
        i < arena.nodes.len(),
    ensures
        r as int == world_yaw(*arena, i as int),
        0 <= r < TAU_FP,
    decreases i,
{
    let n = arena.nodes[i];
    match n.parent {
        None => n.yaw,
        Some(p) => {
            let wy = node_world_yaw(arena, p);
            emod64(wy + n.yaw, TAU_FP)
        },
    }
}

/// Resolves the world position of a node by walking up the arena; each
/// component stays within `2 * OFFSET_LIMIT` per ancestor.
pub fn node_world_pos(arena: &SceneArena, i: usize) -> (r: Vec3Fp)
    requires
        arena.wf(),
        i < arena.nodes.len(),
    ensures
        r.x as int == world_x(*arena, i as int),
        r.y as int == world_y(*arena, i as int),
        r.z as int == world_z(*arena, i as int),
        r.in_range(20_000_000_000 * (i as int + 1)),
    decreases i,
{
    let n = arena.nodes[i];
    assert(n.wf(i as int));
    match n.parent {
        None => {
            assert(n.offset.in_range(20_000_000_000 * (i as int + 1)));
            n.offset
        },
        Some(p) => {
            let base = node_world_pos(arena, p);
            let pyaw = node_world_yaw(arena, p);
            let rot = rotate_y(n.offset, pyaw);
            let r = Vec3Fp { x: base.x + rot.x, y: base.y + rot.y, z: base.z + rot.z };
            assert(r.in_range(20_000_000_000 * (i as int + 1)));
            r
        },
    }
}

/// Yaw advanced by `speed * dt` radians, wrapped into one turn.
pub open spec fn spun_yaw(yaw: int, speed: int, dt: int) -> int {
    (yaw + divt(speed * dt, SCALE as int)) % (TAU_FP as int)
}

/// A node after one orbit tick: spinner-driven nodes advance their yaw,
/// all else is untouched.
pub open spec fn spin_node(n: SceneNode, dt: int) -> SceneNode {
    match n.rotator {
        Some(r) => SceneNode { yaw: spun_yaw(n.yaw as int, r.speed as int, dt) as i64, ..n },
        None => n,
    }
}

/// Advances every `Rotator`-driven node's yaw by `speed * dt` radians:
/// one tick of the orbit animation, an unconditional accumulator with no
/// failure modes.
pub fn rotate_objects(arena: &mut SceneArena, dt: i64)
    requires
        old(arena).wf(),
        0 <= dt <= DT_LIMIT,
    ensures
        final(arena).wf(),
        final(arena).nodes.len() == old(arena).nodes.len(),
        forall|i: int|
            0 <= i < old(arena).nodes.len() ==> final(arena).nodes@[i] == spin_node(
                old(arena).nodes@[i],
                dt as int,
            ),
{
    let n = arena.nodes.len();
    let mut out: Vec<SceneNode> = Vec::new();
    let mut i: usize = 0;
    while i < n
        invariant
            arena.wf(),
            *arena == *old(arena),
            n == arena.nodes.len(),
            i <= n,
            out.len() == i,
            0 <= dt <= DT_LIMIT,
            forall|j: int| 0 <= j < i ==> out@[j] == spin_node(arena.nodes@[j], dt as int),
            forall|j: int| 0 <= j < i ==> (#[trigger] out@[j]).wf(j),
        decreases n - i,
    {
        let node = arena.nodes[i];
        let updated = match node.rotator {
            Some(r) => {
                proof {
                    lemma_divt_prod_le(
                        r.speed as int,
                        dt as int,
                        SCALE as int,
                        SPEED_LIMIT as int,
                        DT_LIMIT as int,
                    );
                }
                let delta = mul_div(r.speed, dt, SCALE);
                let yaw2 = emod64(node.yaw + delta, TAU_FP);
                SceneNode { yaw: yaw2, ..node }
            },
            None => node,
        };
        out.push(updated);
        i = i + 1;
    }
    arena.nodes = out;
}

/// World positions of all planet-tagged nodes among the first `n`, in
/// arena order.
pub open spec fn planet_positions(arena: SceneArena, n: int) -> Seq<Vec3Fp>
    decreases n,
{
    if n <= 0 {
        Seq::empty()
    } else {
        let rest = planet_positions(arena, n - 1);
        if arena.nodes@[n - 1].body == Some(Body::Planet) {
            rest.push(
                Vec3Fp {
                    x: world_x(arena, n - 1) as i64,
                    y: world_y(arena, n - 1) as i64,
                    z: world_z(arena, n - 1) as i64,
                },
            )
        } else {
            rest
        }
    }
}

/// Read-only view of the scene for the bounds computation: the world
/// positions of all planets.
#[derive(Clone, Debug)]
pub struct SceneIndex {
    pub planets: Vec<Vec3Fp>,
}

impl SceneIndex {
    /// Bounded count and bounded coordinates.
    pub open spec fn wf(self) -> bool {
        &&& self.planets.len() <= NODES_MAX
        &&& forall|i: int|
            0 <= i < self.planets.len() ==> (#[trigger] self.planets@[i]).in_range(
                WORLD_LIMIT as int,
            )
    }

    /// Collects every planet's world position from the arena.
    pub fn build(arena: &SceneArena) -> (r: SceneIndex)
        requires
            arena.wf(),
        ensures
            r.planets@ == planet_positions(*arena, arena.nodes.len() as int),
            r.wf(),
    {
        let n = arena.nodes.len();
        let mut planets: Vec<Vec3Fp> = Vec::new();
        let mut i: usize = 0;
        while i < n
            invariant
                arena.wf(),
                n == arena.nodes.len(),
                i <= n,
                planets@ == planet_positions(*arena, i as int),
                planets.len() <= i,
                forall|j: int|
                    0 <= j < planets.len() ==> (#[trigger] planets@[j]).in_range(
                        WORLD_LIMIT as int,
                    ),
            decreases n - i,
        {
            let node = arena.nodes[i];
            let is_planet = match node.body {
                Some(Body::Planet) => true,
                _ => false,
            };
            if is_planet {
                let pos = node_world_pos(arena, i);
                assert(pos == (Vec3Fp {
                    x: world_x(*arena, i as int) as i64,
                    y: world_y(*arena, i as int) as i64,
                    z: world_z(*arena, i as int) as i64,
                }));
                planets.push(pos);
            }
            i = i + 1;
        }
        SceneIndex { planets }
    }
}

} // verus!
