//! Artifacts: rare devices with a few charges each.
use vstd::prelude::*;
use vstd::string::*;
use crate::components::{EntityId, Glyph, MessageLog, Position, log_after_push};
use crate::tags::{TagRegistry, Tags};
use crate::text::decimal;

verus! {

/// The kinds of artifact.
#[derive(Debug, Clone, Copy, PartialEq, Eq, Structural)]
pub enum ArtifactType {
    /// Instantly crafts any known recipe.
    NanoForge,
    /// Teleports to a random revealed map position.
    PhaseShifter,
    /// Freezes all NPCs for 5 turns.
    StasisField,
    /// Reveals all undiscovered map areas.
    DataCache,
    /// Fully heals the player.
    MedicalNanites,
    /// Deals 50 damage to all enemies in radius.
    PlasmaGrenade,
    /// Returns the player to the overworld entrance.
    GravityAnchor,
}

/// The display name of an artifact kind.
pub open spec fn artifact_name(t: ArtifactType) -> Seq<char> {
    match t {
        ArtifactType::NanoForge => "NanoForge"@,
        ArtifactType::PhaseShifter => "Phase Shifter"@,
        ArtifactType::StasisField => "Stasis Field"@,
        ArtifactType::DataCache => "Data Cache"@,
        ArtifactType::MedicalNanites => "Medical Nanites"@,
        ArtifactType::PlasmaGrenade => "Plasma Grenade"@,
        ArtifactType::GravityAnchor => "Gravity Anchor"@,
    }
}

/// The charges an artifact kind comes with.
pub open spec fn artifact_charges(t: ArtifactType) -> u32 {
    match t {
        ArtifactType::NanoForge => 3,
        ArtifactType::PhaseShifter => 3,
        ArtifactType::StasisField => 2,
        ArtifactType::DataCache => 2,
        ArtifactType::MedicalNanites => 1,
        ArtifactType::PlasmaGrenade => 3,
        ArtifactType::GravityAnchor => 2,
    }
}

/// The glyph of an artifact kind.
pub open spec fn artifact_glyph(t: ArtifactType) -> char {
    match t {
        ArtifactType::NanoForge => '⚙',
        ArtifactType::PhaseShifter => '⟐',
        ArtifactType::StasisField => '❄',
        ArtifactType::DataCache => '☐',
        ArtifactType::MedicalNanites => '✦',
        ArtifactType::PlasmaGrenade => '※',
        ArtifactType::GravityAnchor => '⏚',
    }
}

impl ArtifactType {
    /// Every kind, in declaration order.
    pub fn all() -> (r: [ArtifactType; 7])
        ensures
            r@ == seq![ArtifactType::NanoForge, ArtifactType::PhaseShifter, ArtifactType::StasisField,
                ArtifactType::DataCache, ArtifactType::MedicalNanites, ArtifactType::PlasmaGrenade,
                ArtifactType::GravityAnchor],
    {
        let r = [
            ArtifactType::NanoForge,
            ArtifactType::PhaseShifter,
            ArtifactType::StasisField,
            ArtifactType::DataCache,
            ArtifactType::MedicalNanites,
            ArtifactType::PlasmaGrenade,
            ArtifactType::GravityAnchor,
        ];
        assert(r@ =~= seq![ArtifactType::NanoForge, ArtifactType::PhaseShifter, ArtifactType::StasisField,
                ArtifactType::DataCache, ArtifactType::MedicalNanites, ArtifactType::PlasmaGrenade,
                ArtifactType::GravityAnchor]);
        r
    }

    /// The display name.
    pub fn name(&self) -> (r: &'static str)
        ensures
            r@ == artifact_name(*self),
    {
        match self {
            ArtifactType::NanoForge => "NanoForge",
            ArtifactType::PhaseShifter => "Phase Shifter",
            ArtifactType::StasisField => "Stasis Field",
            ArtifactType::DataCache => "Data Cache",
            ArtifactType::MedicalNanites => "Medical Nanites",
            ArtifactType::PlasmaGrenade => "Plasma Grenade",
            ArtifactType::GravityAnchor => "Gravity Anchor",
        }
    }

    /// What the artifact does.
    pub fn description(&self) -> (r: &'static str)
        ensures
            r@ == match *self {
                ArtifactType::NanoForge => "Instantly crafts any known recipe without materials."@,
                ArtifactType::PhaseShifter => "Teleports you to a random revealed position."@,
                ArtifactType::StasisField => "Freezes all nearby creatures for 5 turns."@,
                ArtifactType::DataCache => "Reveals all undiscovered areas on the map."@,
                ArtifactType::MedicalNanites => "Fully restores your health."@,
                ArtifactType::PlasmaGrenade => "Deals massive damage to all enemies nearby."@,
                ArtifactType::GravityAnchor => "Returns you to the overworld entrance."@,
            },
    {
        match self {
            ArtifactType::NanoForge => "Instantly crafts any known recipe without materials.",
            ArtifactType::PhaseShifter => "Teleports you to a random revealed position.",
            ArtifactType::StasisField => "Freezes all nearby creatures for 5 turns.",
            ArtifactType::DataCache => "Reveals all undiscovered areas on the map.",
            ArtifactType::MedicalNanites => "Fully restores your health.",
            ArtifactType::PlasmaGrenade => "Deals massive damage to all enemies nearby.",
            ArtifactType::GravityAnchor => "Returns you to the overworld entrance.",
        }
    }

    /// The glyph.
    pub fn glyph(&self) -> (r: char)
        ensures
            r == artifact_glyph(*self),
    {
        match self {
            ArtifactType::NanoForge => '⚙',
            ArtifactType::PhaseShifter => '⟐',
            ArtifactType::StasisField => '❄',
            ArtifactType::DataCache => '☐',
            ArtifactType::MedicalNanites => '✦',
            ArtifactType::PlasmaGrenade => '※',
            ArtifactType::GravityAnchor => '⏚',
        }
    }

    /// The charges it comes with.
    pub fn max_charges(&self) -> (r: u32)
        ensures
            r == artifact_charges(*self),
    {
        match self {
            ArtifactType::NanoForge => 3,
            ArtifactType::PhaseShifter => 3,
            ArtifactType::StasisField => 2,
            ArtifactType::DataCache => 2,
            ArtifactType::MedicalNanites => 1,
            ArtifactType::PlasmaGrenade => 3,
            ArtifactType::GravityAnchor => 2,
        }
    }
}

/// An artifact and its charges.
#[derive(Debug, Clone, Copy, PartialEq, Eq, Structural)]
pub struct Artifact {
    pub artifact_type: ArtifactType,
    pub charges: u32,
    pub max_charges: u32,
}

/// The log line of a use leaving `left` charges.
pub open spec fn use_message(t: ArtifactType, left: u32) -> Seq<char> {
    if left == 0 {
        artifact_name(t) + " activated. No charges remaining."@
    } else {
        artifact_name(t) + " activated. ("@ + decimal(left as nat) + " charge"@
            + (if left == 1 { ""@ } else { "s"@ }) + " remaining)"@
    }
}

impl Artifact {
    /// A fully charged artifact of the kind.
    pub fn new(artifact_type: ArtifactType) -> (r: Self)
        ensures
            r == (Artifact { artifact_type, charges: artifact_charges(artifact_type), max_charges: artifact_charges(artifact_type) }),
    {
        Artifact { artifact_type, charges: artifact_type.max_charges(), max_charges: artifact_type.max_charges() }
    }

    /// Uses a charge, logging it; says whether that was the last one. A spent artifact does nothing.
    pub fn use_charge(&mut self, log: &mut Option<MessageLog>) -> (r: bool)
        requires
            old(log).is_some() ==> old(log).unwrap().max > 0 || old(log).unwrap().messages@.len() > 0,
        ensures
            old(self).charges == 0 ==> !r && *final(self) == *old(self) && *final(log) == *old(log),
            old(self).charges > 0 ==> {
                &&& *final(self) == (Artifact { charges: (old(self).charges - 1) as u32, ..*old(self) })
                &&& r == (final(self).charges == 0)
                &&& final(log).is_some() == old(log).is_some()
                &&& old(log).is_some() ==> final(log).unwrap().max == old(log).unwrap().max
                    && final(log).unwrap().lines() == log_after_push(old(log).unwrap().lines(),
                        old(log).unwrap().max as int, use_message(old(self).artifact_type, final(self).charges))
            },
    {
        if self.charges == 0 {
            return false;
        }
        self.charges = self.charges - 1;
        let left = self.charges;
        let mut msg = String::from_str(self.artifact_type.name());
        if left == 0 {
            msg.append(" activated. No charges remaining.");
        } else {
            msg.append(" activated. (");
            let n = crate::text::u32_text(left);
            msg.append(n.as_str());
            msg.append(" charge");
            if left == 1 { msg.append(""); } else { msg.append("s"); }
            msg.append(" remaining)");
        }
        match log {
            Some(l) => l.push(msg),
            None => {},
        }
        left == 0
    }

    /// Whether no charge is left.
    pub fn is_depleted(&self) -> (r: bool)
        ensures
            r == (self.charges == 0),
    {
        self.charges == 0
    }
}

/// An artifact lying in the world.
#[derive(Debug)]
pub struct SpawnedArtifact {
    pub id: EntityId,
    pub name: String,
    pub glyph: Glyph,
    pub position: Position,
    pub artifact: Artifact,
    pub tags: Tags,
}

/// Whether an artifact carries tag `t`: ARTIFACT or VALUABLE when registered with an id below 64.
pub open spec fn artifact_tag(registry: Option<&TagRegistry>, t: int) -> bool {
    match registry {
        Some(reg) => (reg.id_of("ARTIFACT"@) == Some(t as usize) || reg.id_of("VALUABLE"@) == Some(t as usize)) && 0 <= t < 64,
        None => false,
    }
}

/// Puts a fully charged artifact at `pos` with id `id`: gold glyph, tagged ARTIFACT and
/// VALUABLE when those are registered (in a tag set with room for 64 tags).
pub fn spawn_artifact(pos: Position, artifact_type: ArtifactType, registry: Option<&TagRegistry>, id: EntityId) -> (r: SpawnedArtifact)
    ensures
        r.id == id,
        r.name@ == artifact_name(artifact_type),
        r.glyph == (Glyph { char: artifact_glyph(artifact_type), color: (255u8, 215u8, 0u8) }),
        r.position == pos,
        r.artifact == (Artifact { artifact_type, charges: artifact_charges(artifact_type), max_charges: artifact_charges(artifact_type) }),
        r.tags.present@.len() == 64,
        forall|t: int| #[trigger] r.tags.contains(t) <==> artifact_tag(registry, t),
{
    let mut t = Tags::new(64);
    match registry {
        Some(reg) => {
            if let Some(tid) = reg.tag_id("ARTIFACT") { t.add_tag(tid); }
            if let Some(tid) = reg.tag_id("VALUABLE") { t.add_tag(tid); }
        },
        None => {},
    }
    SpawnedArtifact {
        id,
        name: String::from_str(artifact_type.name()),
        glyph: Glyph { char: artifact_type.glyph(), color: (255, 215, 0) },
        position: pos,
        artifact: Artifact::new(artifact_type),
        tags: t,
    }
}


/// Charges of new artifacts: NanoForge, Phase Shifter and Plasma Grenade 3; Stasis Field,
/// Data Cache and Gravity Anchor 2; Medical Nanites 1. Every kind has at least one.
pub proof fn law_artifact_charges_table(t: ArtifactType)
    ensures
        artifact_charges(ArtifactType::NanoForge) == 3,
        artifact_charges(ArtifactType::PhaseShifter) == 3,
        artifact_charges(ArtifactType::PlasmaGrenade) == 3,
        artifact_charges(ArtifactType::StasisField) == 2,
        artifact_charges(ArtifactType::DataCache) == 2,
        artifact_charges(ArtifactType::GravityAnchor) == 2,
        artifact_charges(ArtifactType::MedicalNanites) == 1,
        1 <= artifact_charges(t) <= 3,
{
}

} // verus!
