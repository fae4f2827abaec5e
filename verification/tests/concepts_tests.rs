use gamezap::ecs::concepts::{ConceptManager, ConceptManagerError, ConceptMap};

fn name(s: &str) -> String {
    s.to_string()
}

#[test]
fn register_concept_returns_its_name_and_reads_back() {
    let mut manager: ConceptManager<i32> = ConceptManager::default();
    let returned = manager.register_concept(7, name("velocity"), 5);
    assert_eq!(returned, "velocity");
    assert!(matches!(manager.get_concept(7, name("velocity")), Ok(&5)));
}

#[test]
fn register_concept_adds_to_an_existing_component() {
    let mut manager: ConceptManager<i32> = ConceptManager::default();
    manager.register_concept(1, name("mass"), 3);
    manager.register_concept(1, name("scale"), 4);
    assert!(matches!(manager.get_concept(1, name("mass")), Ok(&3)));
    assert!(matches!(manager.get_concept(1, name("scale")), Ok(&4)));
}

#[test]
fn register_concept_replaces_a_concept_of_the_same_name() {
    let mut manager: ConceptManager<i32> = ConceptManager::default();
    manager.register_concept(1, name("mass"), 3);
    manager.register_concept(1, name("mass"), 9);
    assert!(matches!(manager.get_concept(1, name("mass")), Ok(&9)));
}

#[test]
fn get_concept_reports_a_missing_component() {
    let mut manager: ConceptManager<i32> = ConceptManager::default();
    manager.register_concept(1, name("mass"), 3);
    match manager.get_concept(2, name("mass")) {
        Err(ConceptManagerError::ComponentNotFound(id)) => assert_eq!(id, 2),
        other => panic!("unexpected {:?}", other),
    }
}

#[test]
fn get_concept_reports_a_missing_concept() {
    let mut manager: ConceptManager<i32> = ConceptManager::default();
    manager.register_concept(1, name("mass"), 3);
    match manager.get_concept(1, name("velocity")) {
        Err(ConceptManagerError::ConceptNotFound(n)) => assert_eq!(n, "velocity"),
        other => panic!("unexpected {:?}", other),
    }
}

#[test]
fn get_concept_mut_changes_the_stored_value() {
    let mut manager: ConceptManager<i32> = ConceptManager::default();
    manager.register_concept(1, name("position"), 10);
    manager.register_concept(1, name("scale"), 2);
    match manager.get_concept_mut(1, name("position")) {
        Ok(p) => *p += 5,
        Err(e) => panic!("unexpected {:?}", e),
    }
    assert!(matches!(manager.get_concept(1, name("position")), Ok(&15)));
    assert!(matches!(manager.get_concept(1, name("scale")), Ok(&2)));
}

#[test]
fn get_concept_mut_reports_errors() {
    let mut manager: ConceptManager<i32> = ConceptManager::default();
    manager.register_concept(1, name("position"), 10);
    assert!(matches!(
        manager.get_concept_mut(4, name("position")),
        Err(ConceptManagerError::ComponentNotFound(4))
    ));
    assert!(matches!(
        manager.get_concept_mut(1, name("rotation")),
        Err(ConceptManagerError::ConceptNotFound(_))
    ));
}

#[test]
fn register_component_concepts_replaces_and_names_all() {
    let mut manager: ConceptManager<i32> = ConceptManager::default();
    manager.register_concept(3, name("old"), 1);
    let mut concepts = ConceptMap::new();
    concepts.insert(name("matrix"), 1);
    concepts.insert(name("position"), 2);
    concepts.insert(name("rotation"), 3);
    let mut names = manager.register_component_concepts(3, concepts);
    names.sort();
    assert_eq!(names, vec!["matrix", "position", "rotation"]);
    assert!(matches!(manager.get_concept(3, name("position")), Ok(&2)));
    assert!(matches!(
        manager.get_concept(3, name("old")),
        Err(ConceptManagerError::ConceptNotFound(_))
    ));
}

#[test]
fn modify_key_moves_concepts() {
    let mut manager: ConceptManager<i32> = ConceptManager::default();
    manager.register_concept(1, name("mass"), 3);
    manager.modify_key(1, 8);
    assert!(matches!(manager.get_concept(8, name("mass")), Ok(&3)));
    assert!(matches!(
        manager.get_concept(1, name("mass")),
        Err(ConceptManagerError::ComponentNotFound(1))
    ));
}

#[test]
fn modify_key_there_and_back_restores() {
    let mut manager: ConceptManager<i32> = ConceptManager::default();
    manager.register_concept(1, name("mass"), 3);
    manager.register_concept(2, name("mass"), 4);
    manager.modify_key(1, 8);
    manager.modify_key(8, 1);
    assert!(matches!(manager.get_concept(1, name("mass")), Ok(&3)));
    assert!(matches!(manager.get_concept(2, name("mass")), Ok(&4)));
    assert!(manager.get_concept(8, name("mass")).is_err());
}

#[test]
fn modify_key_of_unknown_component_changes_nothing() {
    let mut manager: ConceptManager<i32> = ConceptManager::default();
    manager.register_concept(1, name("mass"), 3);
    manager.modify_key(5, 1);
    assert!(matches!(manager.get_concept(1, name("mass")), Ok(&3)));
    assert!(manager.get_concept(5, name("mass")).is_err());
}

#[test]
fn concept_map_insert_get_and_names() {
    let mut map: ConceptMap<u8> = ConceptMap::new();
    assert_eq!(map.len(), 0);
    map.insert(name("a"), 1);
    map.insert(name("b"), 2);
    map.insert(name("a"), 3);
    assert_eq!(map.len(), 2);
    assert_eq!(map.get(&name("a")), Some(&3));
    assert_eq!(map.get(&name("c")), None);
    assert!(map.contains(&name("b")));
    assert!(!map.contains(&name("c")));
    assert_eq!(map.names(), vec!["a".to_string(), "b".to_string()]);
    if let Some(v) = map.get_mut(&name("b")) {
        *v = 7;
    }
    assert_eq!(map.get(&name("b")), Some(&7));
    assert!(map.get_mut(&name("z")).is_none());
}
