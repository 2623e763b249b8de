use carapace::artifacts::{spawn_artifact, Artifact, ArtifactType};
use carapace::components::{MessageLog, Position};
use carapace::tags::TagRegistry;

#[test]
fn all_seven_artifacts_have_names() {
    for a in ArtifactType::all() {
        assert!(!a.name().is_empty());
        assert!(!a.description().is_empty());
    }
    assert_eq!(ArtifactType::all().len(), 7);
}

#[test]
fn all_artifacts_have_charges() {
    for a in ArtifactType::all() {
        assert!(a.max_charges() > 0);
    }
}

#[test]
fn nano_forge_has_three_charges() {
    let af = ArtifactType::NanoForge;
    assert_eq!(af.max_charges(), 3);
}

#[test]
fn artifact_use_charge_reduces() {
    let mut log = Some(MessageLog::new(100));
    let mut artifact = Artifact::new(ArtifactType::PhaseShifter);
    assert_eq!(artifact.charges, 3);
    artifact.use_charge(&mut log);
    assert_eq!(artifact.charges, 2);
    artifact.use_charge(&mut log);
    assert_eq!(artifact.charges, 1);
    let l = log.unwrap();
    assert_eq!(l.messages[0], "Phase Shifter activated. (2 charges remaining)");
    assert_eq!(l.messages[1], "Phase Shifter activated. (1 charge remaining)");
}

#[test]
fn artifact_is_depleted_when_zero() {
    let mut log = None;
    let mut artifact = Artifact::new(ArtifactType::MedicalNanites);
    assert_eq!(artifact.max_charges, 1);
    assert!(!artifact.is_depleted());
    assert!(artifact.use_charge(&mut log));
    assert!(artifact.is_depleted());
}

#[test]
fn cannot_use_depleted_artifact() {
    let mut log = Some(MessageLog::new(10));
    let mut artifact = Artifact::new(ArtifactType::MedicalNanites);
    artifact.use_charge(&mut log);
    assert!(!artifact.use_charge(&mut log));
    assert_eq!(log.unwrap().messages, vec!["Medical Nanites activated. No charges remaining.".to_string()]);
}

#[test]
fn spawn_artifact_creates_entity() {
    let mut reg = TagRegistry::new();
    reg.add_tag("item", "ARTIFACT", None, None);
    reg.add_tag("item", "VALUABLE", None, None);
    let a = spawn_artifact(Position { z: 0, x: 5, y: 5 }, ArtifactType::NanoForge, Some(&reg), 42);
    assert_eq!(a.artifact.charges, 3);
    assert_eq!(a.name, "NanoForge");
    assert_eq!(a.glyph.char, '⚙');
    assert!(a.tags.has(0) && a.tags.has(1));
    assert_eq!(a.id, 42);
}
