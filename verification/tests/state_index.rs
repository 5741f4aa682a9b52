use runner_controller::state::{ContainerState, StateDb, StateError};

fn fresh() -> StateDb {
    StateDb::in_memory().expect("an index in memory")
}

#[test]
fn put_then_get_returns_the_assignment() {
    let mut index = fresh();
    let a = ContainerState::at(42, 1_000);
    index.put_container("ci-runner-42", &a).unwrap();
    assert_eq!(index.get_container("ci-runner-42"), Ok(Some(a)));
    assert_eq!(index.get_container("ci-runner-43"), Ok(None));
}

#[test]
fn put_replaces_what_was_there() {
    let mut index = fresh();
    index.put_container("ci-runner-1", &ContainerState::at(1, 10)).unwrap();
    index.put_container("ci-runner-1", &ContainerState::at(1, 20)).unwrap();
    assert_eq!(index.get_container("ci-runner-1"), Ok(Some(ContainerState::at(1, 20))));
    assert_eq!(index.list_containers().unwrap().len(), 1);
}

#[test]
fn remove_then_get_returns_absent() {
    let mut index = fresh();
    index.put_container("ci-runner-7", &ContainerState::at(7, 5)).unwrap();
    index.remove_container("ci-runner-7").unwrap();
    assert_eq!(index.get_container("ci-runner-7"), Ok(None));
    // Removing an absent name succeeds silently.
    assert_eq!(index.remove_container("ci-runner-7"), Ok(()));
    assert_eq!(index.remove_container("never-there"), Ok(()));
}

#[test]
fn list_is_in_name_order() {
    let mut index = fresh();
    index.put_container("ci-runner-2", &ContainerState::at(2, 20)).unwrap();
    index.put_container("ci-runner-10", &ContainerState::at(10, 30)).unwrap();
    index.put_container("ci-runner-1", &ContainerState::at(1, 10)).unwrap();
    let listed = index.list_containers().unwrap();
    assert_eq!(
        listed,
        vec![
            ("ci-runner-1".to_string(), ContainerState::at(1, 10)),
            ("ci-runner-10".to_string(), ContainerState::at(10, 30)),
            ("ci-runner-2".to_string(), ContainerState::at(2, 20)),
        ]
    );
}

#[test]
fn clear_then_list_returns_empty() {
    let mut index = fresh();
    index.put_container("a", &ContainerState::at(1, 1)).unwrap();
    index.put_container("b", &ContainerState::at(2, 2)).unwrap();
    index.clear_all().unwrap();
    assert_eq!(index.list_containers(), Ok(vec![]));
    // Clearing an empty index is fine too, and the index still works.
    index.clear_all().unwrap();
    index.put_container("c", &ContainerState::at(3, 3)).unwrap();
    assert_eq!(index.list_containers().unwrap().len(), 1);
}

#[test]
fn remove_stale_keeps_only_live_names() {
    let mut index = fresh();
    index.put_container("ci-runner-1", &ContainerState::at(1, 1)).unwrap();
    index.put_container("ci-runner-7", &ContainerState::at(7, 7)).unwrap();
    index.put_container("ci-runner-9", &ContainerState::at(9, 9)).unwrap();
    let live = vec!["ci-runner-7".to_string(), "ci-runner-100".to_string()];
    index.remove_stale(&live).unwrap();
    assert_eq!(
        index.list_containers().unwrap(),
        vec![("ci-runner-7".to_string(), ContainerState::at(7, 7))]
    );
}

#[test]
fn open_fails_in_a_directory_that_is_not_there() {
    match StateDb::open("/nonexistent-directory-for-runner-controller") {
        Err(StateError::Storage(_)) => {}
        Err(other) => panic!("unexpected error {:?}", other),
        Ok(_) => panic!("opened an index in a missing directory"),
    }
}

#[test]
fn an_index_in_a_file_survives_reopening() {
    {
        let mut index = StateDb::open("/tmp").expect("an index under /tmp");
        index.clear_all().unwrap();
        index.put_container("ci-runner-5", &ContainerState::at(5, 50)).unwrap();
    }
    let mut index = StateDb::open("/tmp/").expect("the same index again");
    assert_eq!(index.get_container("ci-runner-5"), Ok(Some(ContainerState::at(5, 50))));
    index.clear_all().unwrap();
    assert_eq!(index.path(), Some("/tmp/state.redb".to_string()));
}

#[test]
fn an_index_knows_where_it_is_kept() {
    let in_file = StateDb::open("/tmp").expect("an index under /tmp");
    assert_eq!(in_file.path(), Some("/tmp/state.redb".to_string()));
    assert_eq!(fresh().path(), None);
}
