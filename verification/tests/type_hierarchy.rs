use quorum_proof::state::QuorumProofContract;
use quorum_proof::types::Address;

fn setup() -> (QuorumProofContract, Address) {
    let mut c = QuorumProofContract::new();
    let admin = Address(1000);
    c.initialize(admin).unwrap();
    (c, admin)
}

fn register(c: &mut QuorumProofContract, admin: Address, id: u32, name: &str, desc: &str, parent: Option<u32>) {
    c.register_credential_type(admin, id, name.to_string(), desc.to_string(), parent).unwrap();
}

#[test]
fn test_register_and_get_credential_type() {
    let (mut c, admin) = setup();
    let name = "Mechanical Engineering Degree";
    register(&mut c, admin, 1, name, "Bachelor or higher in Mechanical Engineering", None);
    let def = c.get_credential_type(1).unwrap();
    assert_eq!(def.type_id, 1);
    assert_eq!(def.name, name);
}

#[test]
fn test_register_credential_type_overwrites() {
    let (mut c, admin) = setup();
    register(&mut c, admin, 1, "Old Name", "desc", None);
    register(&mut c, admin, 1, "New Name", "desc", None);
    assert_eq!(c.get_credential_type(1).unwrap().name, "New Name");
}

#[test]
fn test_register_credential_type_emits_event() {
    let (mut c, admin) = setup();
    register(&mut c, admin, 5, "Civil Engineering", "desc", None);
    assert_eq!(c.get_credential_type(5).unwrap().type_id, 5);
}

#[test]
fn test_register_credential_type_without_parent() {
    let (mut c, admin) = setup();
    register(&mut c, admin, 1, "Engineering Degree", "Bachelor of Engineering", None);
    let ctype = c.get_credential_type(1).unwrap();
    assert_eq!(ctype.type_id, 1);
    assert_eq!(ctype.name, "Engineering Degree");
    assert_eq!(ctype.description, "Bachelor of Engineering");
    assert_eq!(ctype.parent_type, None);
}

#[test]
fn test_register_credential_type_with_valid_parent() {
    let (mut c, admin) = setup();
    register(&mut c, admin, 1, "Engineering", "Engineering Credential", None);
    register(&mut c, admin, 2, "Mechanical Engineering", "Mechanical Engineering Degree", Some(1));
    assert_eq!(c.get_credential_type(2).unwrap().parent_type, Some(1));
}

#[test]
fn test_three_level_hierarchy() {
    let (mut c, admin) = setup();
    register(&mut c, admin, 1, "Professional Credential", "Professional Credential", None);
    register(&mut c, admin, 2, "Engineering License", "Engineering License", Some(1));
    register(&mut c, admin, 3, "Mechanical Engineering License", "Mechanical Engineering License", Some(2));
    assert_eq!(c.get_credential_type_parent(3), Some(2));
    assert_eq!(c.get_credential_type_parent(2), Some(1));
    assert_eq!(c.get_credential_type_parent(1), None);
}

#[test]
fn test_get_credential_type_children() {
    let (mut c, admin) = setup();
    register(&mut c, admin, 1, "Parent", "Parent Type", None);
    register(&mut c, admin, 2, "Child 1", "Child 1", Some(1));
    register(&mut c, admin, 3, "Child 2", "Child 2", Some(1));
    let children = c.get_credential_type_children(1);
    assert_eq!(children.len(), 2);
    assert!(children.iter().any(|&x| x == 2));
    assert!(children.iter().any(|&x| x == 3));
    assert_eq!(c.get_credential_type_children(2).len(), 0);
}

#[test]
fn test_get_credential_type_ancestors() {
    let (mut c, admin) = setup();
    register(&mut c, admin, 1, "A", "", None);
    register(&mut c, admin, 2, "B", "", Some(1));
    register(&mut c, admin, 3, "C", "", Some(2));
    assert_eq!(c.get_credential_type_ancestors(3), vec![2, 1]);
    assert_eq!(c.get_credential_type_ancestors(2), vec![1]);
    assert_eq!(c.get_credential_type_ancestors(1).len(), 0);
}

#[test]
fn test_is_credential_type_child_of() {
    let (mut c, admin) = setup();
    register(&mut c, admin, 1, "", "", None);
    register(&mut c, admin, 2, "", "", Some(1));
    register(&mut c, admin, 3, "", "", Some(2));
    assert!(c.is_credential_type_child_of(2, 1));
    assert!(c.is_credential_type_child_of(3, 1));
    assert!(!c.is_credential_type_child_of(1, 2));
    register(&mut c, admin, 4, "", "", None);
    assert!(!c.is_credential_type_child_of(4, 1));
}

#[test]
fn test_inherit_verification_rules() {
    let (mut c, admin) = setup();
    register(&mut c, admin, 1, "", "", None);
    register(&mut c, admin, 2, "", "", Some(1));
    register(&mut c, admin, 3, "", "", Some(2));
    register(&mut c, admin, 4, "", "", Some(3));
    assert_eq!(c.inherit_verification_rules(4), vec![4, 3, 2, 1]);
    assert_eq!(c.inherit_verification_rules(1), vec![1]);
}

#[test]
fn test_multiple_children_same_parent() {
    let (mut c, admin) = setup();
    register(&mut c, admin, 1, "", "", None);
    for i in 2u32..5u32 {
        register(&mut c, admin, i, "", "", Some(1));
    }
    assert_eq!(c.get_credential_type_children(1).len(), 3);
    for i in 2u32..5u32 {
        assert_eq!(c.get_credential_type_parent(i), Some(1));
    }
}

#[test]
fn test_backward_compatibility_no_parent() {
    let (mut c, admin) = setup();
    register(&mut c, admin, 1, "Legacy Type", "No parent", None);
    assert_eq!(c.get_credential_type_parent(1), None);
    assert_eq!(c.get_credential_type_children(1).len(), 0);
    assert_eq!(c.get_credential_type_ancestors(1).len(), 0);
    assert_eq!(c.inherit_verification_rules(1), vec![1]);
}

#[test]
fn test_overwrite_existing_type_maintains_hierarchy() {
    let (mut c, admin) = setup();
    register(&mut c, admin, 1, "", "", None);
    register(&mut c, admin, 2, "", "", Some(1));
    assert_eq!(c.get_credential_type_parent(2), Some(1));
    register(&mut c, admin, 1, "", "Updated description", None);
    assert_eq!(c.get_credential_type_parent(2), Some(1));
}

#[test]
fn re_registering_under_another_parent_moves_the_child_once() {
    let (mut c, admin) = setup();
    register(&mut c, admin, 1, "A", "a", None);
    register(&mut c, admin, 2, "B", "b", None);
    register(&mut c, admin, 3, "C", "c", Some(1));
    register(&mut c, admin, 3, "C", "c", Some(1));
    assert_eq!(c.get_credential_type_children(1).to_vec(), vec![3]);
    register(&mut c, admin, 3, "C", "c", Some(2));
    assert!(c.get_credential_type_children(1).is_empty());
    assert_eq!(c.get_credential_type_children(2).to_vec(), vec![3]);
    register(&mut c, admin, 3, "C", "c", None);
    assert!(c.get_credential_type_children(2).is_empty());
}
