use user_store::{
    create_user, delete_user, fresh_id, get_user, get_users, holds_id, parse_user_id,
    update_user, Reply, StoreError, User, UserStore,
};

fn s(text: &str) -> String {
    text.to_string()
}

fn uuid_text(id: u128) -> String {
    format!("{:032x}", id)
}

#[test]
fn new_store_is_empty() {
    let store = UserStore::new();
    assert!(store.list().is_empty());
}

#[test]
fn create_then_get_returns_same_record() {
    let mut store = UserStore::new();
    let u = store.create(s("Ann"), s("ann@x.com"));
    assert_eq!(u.name, "Ann");
    assert_eq!(u.email, "ann@x.com");
    let got = store.get(u.id).unwrap();
    assert_eq!(got, u);
}

#[test]
fn creates_receive_distinct_ids_and_all_are_listed() {
    let mut store = UserStore::new();
    let mut ids = Vec::new();
    for k in 0..50 {
        let u = store.create(format!("user{}", k), format!("u{}@x.com", k));
        ids.push(u.id);
    }
    for a in 0..ids.len() {
        for b in 0..ids.len() {
            if a != b {
                assert_ne!(ids[a], ids[b]);
            }
        }
    }
    let listed = store.list();
    assert_eq!(listed.len(), 50);
    for k in 0..50 {
        assert_eq!(listed[k].id, ids[k]);
        assert_eq!(listed[k].name, format!("user{}", k));
    }
}

#[test]
fn update_then_get_returns_new_fields() {
    let mut store = UserStore::new();
    let a = store.create(s("Ann"), s("ann@x.com"));
    let b = store.create(s("Bob"), s("bob@x.com"));
    let up = store.update(a.id, s("Ann B"), s("annb@x.com")).unwrap();
    assert_eq!(up.id, a.id);
    assert_eq!(up.name, "Ann B");
    assert_eq!(up.email, "annb@x.com");
    assert_eq!(store.get(a.id).unwrap(), up);
    assert_eq!(store.get(b.id).unwrap(), b);
    let listed = store.list();
    assert_eq!(listed[0], up);
    assert_eq!(listed[1], b);
}

#[test]
fn update_absent_is_not_found() {
    let mut store = UserStore::new();
    let a = store.create(s("Ann"), s("ann@x.com"));
    let missing = if a.id == 7 { 8 } else { 7 };
    assert_eq!(store.update(missing, s("X"), s("y")), Err(StoreError::NotFound));
    assert_eq!(store.list(), vec![a]);
}

#[test]
fn delete_then_get_is_not_found() {
    let mut store = UserStore::new();
    let a = store.create(s("Ann"), s("ann@x.com"));
    let b = store.create(s("Bob"), s("bob@x.com"));
    let c = store.create(s("Cy"), s("cy@x.com"));
    assert_eq!(store.delete(b.id), Ok(()));
    assert_eq!(store.get(b.id), Err(StoreError::NotFound));
    assert_eq!(store.delete(b.id), Err(StoreError::NotFound));
    assert_eq!(store.list(), vec![a, c]);
}

#[test]
fn list_length_counts_creates_less_deletes() {
    let mut store = UserStore::new();
    let a = store.create(s("A"), s("a@x"));
    let b = store.create(s("B"), s("b@x"));
    store.create(s("C"), s("c@x"));
    assert!(store.delete(a.id).is_ok());
    assert!(store.delete(a.id).is_err());
    assert!(store.delete(b.id).is_ok());
    assert_eq!(store.list().len(), 1);
}

#[test]
fn insert_new_takes_new_candidate() {
    let mut store = UserStore::new();
    let u = store.insert_new(42, s("Ann"), s("ann@x.com"));
    assert_eq!(u.id, 42);
}

#[test]
fn insert_new_never_reuses_a_deleted_id() {
    let mut store = UserStore::new();
    let u = store.insert_new(0, s("A"), s("a@x"));
    assert_eq!(u.id, 0);
    assert!(store.delete(0).is_ok());
    let v = store.insert_new(0, s("B"), s("b@x"));
    assert_eq!(v.id, 1);
    let w = store.insert_new(1, s("C"), s("c@x"));
    assert_eq!(w.id, 2);
}

#[test]
fn fresh_id_keeps_new_candidate() {
    assert_eq!(fresh_id(&vec![5, 9], 3), 3);
    assert_eq!(fresh_id(&vec![], u128::MAX), u128::MAX);
}

#[test]
fn fresh_id_falls_back_to_smallest_unused() {
    assert_eq!(fresh_id(&vec![0, 1, 3], 1), 2);
    assert_eq!(fresh_id(&vec![2, 0, 1], 0), 3);
    assert_eq!(fresh_id(&vec![7], 7), 0);
}

#[test]
fn holds_id_finds_members() {
    assert!(holds_id(&vec![1, 2, 3], 2));
    assert!(!holds_id(&vec![1, 2, 3], 4));
    assert!(!holds_id(&vec![], 0));
}

#[test]
fn parse_user_id_reads_hyphenated_and_simple_forms() {
    let expected: u128 = 0x550e8400_e29b_41d4_a716_446655440000;
    assert_eq!(parse_user_id("550e8400-e29b-41d4-a716-446655440000"), Some(expected));
    assert_eq!(parse_user_id("550e8400e29b41d4a716446655440000"), Some(expected));
}

#[test]
fn parse_user_id_rejects_malformed() {
    assert_eq!(parse_user_id(""), None);
    assert_eq!(parse_user_id("not-a-uuid"), None);
    assert_eq!(parse_user_id("550e8400-e29b-41d4-a716-44665544000g"), None);
}

#[test]
fn reply_statuses() {
    let u = User { id: 1, name: s("A"), email: s("a@x") };
    assert_eq!(Reply::Created(u.clone()).status(), 201);
    assert_eq!(Reply::Record(u.clone()).status(), 200);
    assert_eq!(Reply::Records(vec![u]).status(), 200);
    assert_eq!(Reply::NoContent.status(), 204);
    assert_eq!(Reply::NotFound.status(), 404);
    assert_eq!(Reply::BadRequest.status(), 400);
}

#[test]
fn malformed_id_is_bad_request() {
    let mut store = UserStore::new();
    let a = store.create(s("Ann"), s("ann@x.com"));
    assert_eq!(get_user(&store, "12").status(), 400);
    assert_eq!(update_user(&mut store, "zz", s("X"), s("y")).status(), 400);
    assert_eq!(delete_user(&mut store, "").status(), 400);
    assert_eq!(store.list(), vec![a]);
}

#[test]
fn ann_lifecycle_through_handlers() {
    let mut store = UserStore::new();
    let created = create_user(&mut store, s("Ann"), s("ann@x.com"));
    assert_eq!(created.status(), 201);
    let user = match created {
        Reply::Created(u) => u,
        _ => panic!("expected a created record"),
    };
    assert_eq!(user.name, "Ann");
    assert_eq!(user.email, "ann@x.com");
    let path = uuid_text(user.id);

    let got = get_user(&store, &path);
    assert_eq!(got.status(), 200);
    match got {
        Reply::Record(u) => assert_eq!(u, user),
        _ => panic!("expected the record"),
    }

    let updated = update_user(&mut store, &path, s("Ann B"), s("ann@x.com"));
    assert_eq!(updated.status(), 200);
    match updated {
        Reply::Record(u) => {
            assert_eq!(u.id, user.id);
            assert_eq!(u.name, "Ann B");
            assert_eq!(u.email, "ann@x.com");
        }
        _ => panic!("expected the updated record"),
    }

    assert_eq!(delete_user(&mut store, &path).status(), 204);
    assert_eq!(get_user(&store, &path).status(), 404);
    assert_eq!(delete_user(&mut store, &path).status(), 404);
    assert_eq!(update_user(&mut store, &path, s("X"), s("y")).status(), 404);
}

#[test]
fn get_users_lists_in_creation_order() {
    let mut store = UserStore::new();
    match get_users(&store) {
        Reply::Records(v) => assert!(v.is_empty()),
        _ => panic!("expected a list"),
    }
    let a = store.create(s("A"), s("a@x"));
    let b = store.create(s("B"), s("b@x"));
    let listed = get_users(&store);
    assert_eq!(listed.status(), 200);
    match listed {
        Reply::Records(v) => assert_eq!(v, vec![a, b]),
        _ => panic!("expected a list"),
    }
}
