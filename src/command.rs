//! Entity handles and the deferred commands that detonations issue.
use crate::geometry::{dist2, in_world, Vec3i};
use vstd::prelude::*;

verus! {

/// An opaque handle on an entity of the host world.
#[derive(Clone, Copy, Debug, PartialEq, Eq, Structural)]
pub struct EntityId {
    pub bits: u64,
}

/// Bits of the handle that refers to no entity.
pub const PLACEHOLDER_BITS: u64 = 0xffff_ffff_ffff_ffff;

impl EntityId {
    /// A handle that refers to no entity.
    pub fn placeholder() -> (r: EntityId)
        ensures
            r.bits == PLACEHOLDER_BITS,
    {
        EntityId { bits: PLACEHOLDER_BITS }
    }
}

/// An entity that weapons can destroy, and where it is.
#[derive(Clone, Copy, Debug, PartialEq, Eq, Structural)]
pub struct Targetable {
    pub entity: EntityId,
    pub position: Vec3i,
}

/// A change to the world, applied by the host once the tick is over.
#[derive(Clone, Copy, Debug, PartialEq, Eq, Structural)]
pub enum Command {
    Despawn { entity: EntityId },
    SpawnExplosion { position: Vec3i },
    PlayDetonationSound,
}

/// Whether `t` lies strictly within `radius` of `center`.
pub open spec fn in_blast(t: Targetable, center: Vec3i, radius: int) -> bool {
    dist2(t.position, center) < radius * radius
}

/// For each target within `radius` of `center`, in order: its despawn, then an
/// explosion where it stood.
pub open spec fn blast_commands(targets: Seq<Targetable>, center: Vec3i, radius: int) -> Seq<Command>
    decreases targets.len(),
{
    if targets.len() == 0 {
        Seq::empty()
    } else {
        let t = targets.last();
        let rest = blast_commands(targets.drop_last(), center, radius);
        if in_blast(t, center, radius) {
            rest + seq![Command::Despawn { entity: t.entity }, Command::SpawnExplosion { position: t.position }]
        } else {
            rest
        }
    }
}

/// Everything a detonation at `center` does: destroy the targets within
/// `radius`, sound the blast, and remove the missile itself.
pub open spec fn detonation_spec(
    missile: EntityId,
    center: Vec3i,
    radius: int,
    targets: Seq<Targetable>,
) -> Seq<Command> {
    blast_commands(targets, center, radius) + seq![
        Command::PlayDetonationSound,
        Command::Despawn { entity: missile },
    ]
}

/// The commands of a detonation of `missile` at `center` with blast radius
/// `radius` (mm) among `targets`.
pub fn detonation_commands(missile: EntityId, center: Vec3i, radius: u64, targets: &Vec<Targetable>) -> (r: Vec<Command>)
    requires
        in_world(center),
        radius <= crate::geometry::WORLD_LIMIT,
        forall|i: int| 0 <= i < targets@.len() ==> in_world(#[trigger] targets@[i].position),
    ensures
        r@ == detonation_spec(missile, center, radius as int, targets@),
{
    let mut cmds: Vec<Command> = Vec::new();
    assert(radius * radius <= 1_000_000_000_000_000_000) by (nonlinear_arith)
        requires
            radius <= 1_000_000_000,
    ;
    let r2 = (radius as u128) * (radius as u128);
    let mut i: usize = 0;
    while i < targets.len()
        invariant
            0 <= i <= targets@.len(),
            in_world(center),
            r2 == radius * radius,
            forall|j: int| 0 <= j < targets@.len() ==> in_world(#[trigger] targets@[j].position),
            cmds@ == blast_commands(targets@.subrange(0, i as int), center, radius as int),
        decreases targets@.len() - i,
    {
        let t = targets[i];
        let d2 = crate::geometry::distance_squared(t.position, center);
        if d2 < r2 {
            cmds.push(Command::Despawn { entity: t.entity });
            cmds.push(Command::SpawnExplosion { position: t.position });
        }
        proof {
            let next = targets@.subrange(0, i + 1);
            assert(next.drop_last() =~= targets@.subrange(0, i as int));
            assert(next.last() == t);
        }
        i = i + 1;
    }
    proof {
        assert(targets@.subrange(0, targets@.len() as int) =~= targets@);
    }
    cmds.push(Command::PlayDetonationSound);
    cmds.push(Command::Despawn { entity: missile });
    cmds
}

} // verus!
