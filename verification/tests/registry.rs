use project_e::error::ProjectEError;
use project_e::registry::{ModuleMetadata, ModuleStore, StateTransition};
use project_e::types::ModuleState;

fn make_module(id: u128, name: &str) -> ModuleMetadata {
    ModuleMetadata {
        id,
        name: name.to_string(),
        version: "0.1.0".to_string(),
        description: "test module".to_string(),
        category: "test".to_string(),
        tags: vec![],
        state: ModuleState::Draft,
        subscriptions: vec![],
        created_at_ms: 0,
        updated_at_ms: 0,
    }
}

#[test]
fn insert_and_get() {
    let mut store = ModuleStore::new();
    let module = make_module(1, "test");
    store.insert(module).unwrap();
    let found = store.get(1).unwrap();
    assert!(found.is_some());
    assert_eq!(found.unwrap().name, "test");
}

#[test]
fn valid_transition() {
    let mut store = ModuleStore::new();
    store.insert(make_module(1, "test")).unwrap();
    store.transition(1, ModuleState::Compiling, "starting build").unwrap();
    let module = store.get(1).unwrap().unwrap();
    assert_eq!(module.state, ModuleState::Compiling);
    assert!(module.updated_at_ms > 0);
}

#[test]
fn invalid_transition_fails() {
    let mut store = ModuleStore::new();
    store.insert(make_module(1, "test")).unwrap();
    let result = store.transition(1, ModuleState::Active, "skip ahead");
    assert!(result.is_err());
    assert_eq!(store.get(1).unwrap().unwrap().state, ModuleState::Draft);
}

#[test]
fn transition_errors_name_the_problem() {
    let mut store = ModuleStore::new();
    store.insert(make_module(0x10, "m")).unwrap();
    match store.transition(0x10, ModuleState::Active, "skip") {
        Err(ProjectEError::Registry { reason }) => {
            assert_eq!(reason, "invalid transition Draft → Active for module m")
        }
        other => panic!("unexpected {other:?}"),
    }
    match store.transition(0x11, ModuleState::Compiling, "missing") {
        Err(ProjectEError::Registry { reason }) => {
            assert_eq!(reason, "module 00000000-0000-0000-0000-000000000011 not found")
        }
        other => panic!("unexpected {other:?}"),
    }
}

#[test]
fn list_by_state() {
    let mut store = ModuleStore::new();
    let m1 = make_module(1, "draft-module");
    store.insert(m1.clone()).unwrap();
    let mut m2 = make_module(2, "active-module");
    m2.state = ModuleState::Draft;
    store.insert(m2.clone()).unwrap();

    let drafts = store.list(Some(ModuleState::Draft));
    assert_eq!(drafts.len(), 2);
    let actives = store.list(Some(ModuleState::Active));
    assert_eq!(actives.len(), 0);
    assert_eq!(store.list(None).len(), 2);
    assert_eq!(store.count_by_state(ModuleState::Draft), 2);
}

#[test]
fn insert_replaces_same_id() {
    let mut store = ModuleStore::new();
    store.insert(make_module(1, "first")).unwrap();
    store.insert(make_module(1, "second")).unwrap();
    assert_eq!(store.list(None).len(), 1);
    assert_eq!(store.get(1).unwrap().unwrap().name, "second");
    assert!(store.get(2).unwrap().is_none());
}

#[test]
fn transition_record() {
    let t = StateTransition::new(9, ModuleState::Testing, ModuleState::Active, "all tests passed".to_string());
    assert_eq!(t.from_state, ModuleState::Testing);
    assert_eq!(t.to_state, ModuleState::Active);
    assert_eq!(t.module_id, 9);
    assert_eq!(t.reason, "all tests passed");
}
