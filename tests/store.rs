use meowstore::auth::{Desc, EnsureAuthError, GenError, Key, Op};
use meowstore::config::{RequireAuth, Root};
use meowstore::project::{self, Project, ToDbReprError};
use meowstore::store::Outcome;
use meowstore::user::{self, User};
use meowstore::{Store, Username};

fn open_store(read: bool, write: bool, remove: bool) -> Store {
    Store::new(Root { require_auth: RequireAuth { read, write, remove } })
}

fn user(name: &str, id: u64, status: &str) -> User {
    User {
        name: Username::from_str(name).unwrap(),
        id,
        scratch_team: false,
        status: status.to_string(),
        bio: "Some cool bio!".to_string(),
        loves: 1,
        favorites: 2,
        views: 3,
        remixes: 4,
    }
}

fn project(id: u64, title: String) -> Project {
    Project {
        id,
        public: true,
        comments_allowed: false,
        is_published: true,
        author_id: 104492,
        author_name: Username::from_str("griffpatch").unwrap(),
        author_scratch_team: true,
        created: -5,
        modified: 10,
        shared: 20,
        title,
        description: "desc".to_string(),
        instructions: "inst".to_string(),
    }
}

#[test]
fn add_then_get_by_name() {
    let mut s = open_store(false, false, false);
    let out = s.add_user(None, user("griffpatch", 104492, "Some status...")).unwrap();
    assert!(!out.existed());
    match out {
        Outcome::Added(doc) => {
            assert_eq!(doc.status, "Some status...");
            assert_eq!(doc.bio, "Some cool bio!");
        }
        Outcome::Existed => panic!("expected an insertion"),
    }
    let got = s.user_by_name(None, &Username::from_str("griffpatch").unwrap()).unwrap();
    assert_eq!(got, user("griffpatch", 104492, "Some status..."));
}

#[test]
fn add_is_idempotent_and_keeps_first_payload() {
    let mut s = open_store(false, false, false);
    assert!(!s.add_user(None, user("griffpatch", 1, "first")).unwrap().existed());
    assert_eq!(s.add_user(None, user("griffpatch", 2, "second")).unwrap(), Outcome::Existed);
    let got = s.user_by_name(None, &Username::from_str("griffpatch").unwrap()).unwrap();
    assert_eq!(got.id, 1);
    assert_eq!(got.status, "first");
}

#[test]
fn remove_then_lookup() {
    let mut s = open_store(false, false, false);
    let name = Username::from_str("griffpatch").unwrap();
    s.add_user(None, user("griffpatch", 1, "x")).unwrap();
    assert_eq!(s.remove_user_by_name(None, &name), Ok(false));
    assert_eq!(s.user_by_name(None, &name), Err(user::GetByNameError::NotFound));
    assert_eq!(s.remove_user_by_name(None, &name), Ok(true));
}

#[test]
fn removed_heap_slot_is_reused() {
    let mut s = open_store(false, false, false);
    let first = match s.add_user(None, user("a", 1, "x")).unwrap() {
        Outcome::Added(d) => d.id,
        Outcome::Existed => panic!(),
    };
    s.add_user(None, user("b", 2, "y")).unwrap();
    s.remove_user_by_name(None, &Username::from_str("a").unwrap()).unwrap();
    let again = match s.add_user(None, user("c", 3, "z")).unwrap() {
        Outcome::Added(d) => d.id,
        Outcome::Existed => panic!(),
    };
    assert_eq!(again, first);
    assert_eq!(s.user_by_name(None, &Username::from_str("b").unwrap()).unwrap().id, 2);
    assert_eq!(s.user_by_name(None, &Username::from_str("c").unwrap()).unwrap().id, 3);
}

#[test]
fn many_users_stay_reachable() {
    let mut s = open_store(false, false, false);
    let names: Vec<String> = (0..60).map(|i| format!("u{}x{}", (i * 37) % 61, i)).collect();
    for (i, n) in names.iter().enumerate() {
        assert!(!s.add_user(None, user(n, i as u64, "s")).unwrap().existed());
    }
    for (i, n) in names.iter().enumerate() {
        assert_eq!(s.user_by_name(None, &Username::from_str(n).unwrap()).unwrap().id, i as u64);
    }
    for n in names.iter().step_by(2) {
        assert_eq!(s.remove_user_by_name(None, &Username::from_str(n).unwrap()), Ok(false));
    }
    for (i, n) in names.iter().enumerate() {
        let r = s.user_by_name(None, &Username::from_str(n).unwrap());
        if i % 2 == 0 {
            assert_eq!(r, Err(user::GetByNameError::NotFound));
        } else {
            assert_eq!(r.unwrap().id, i as u64);
        }
    }
}

#[test]
fn search_resolves_hits_and_skips_stale_ids() {
    let mut s = open_store(false, false, false);
    let a = match s.add_user(None, user("a", 10, "x")).unwrap() { Outcome::Added(d) => d.id, _ => panic!() };
    let b = match s.add_user(None, user("b", 20, "y")).unwrap() { Outcome::Added(d) => d.id, _ => panic!() };
    s.remove_user_by_name(None, &Username::from_str("a").unwrap()).unwrap();
    let found = s.search_users(None, &vec![b, a, 999]).unwrap();
    assert_eq!(found.len(), 1);
    assert_eq!(found[0].id, 20);
}

#[test]
fn write_requires_credential() {
    let mut s = open_store(false, true, false);
    assert_eq!(
        s.add_user(None, user("a", 1, "x")),
        Err(user::AddError::Auth(EnsureAuthError::Required))
    );
    let ro = s.gen_auth(&Desc { read: true, write: false, remove: false }).unwrap();
    assert_eq!(
        s.add_user(Some(&ro), user("a", 1, "x")),
        Err(user::AddError::Auth(EnsureAuthError::NotAllowed))
    );
    let unknown = Key::from_str("0123456789abcdef").unwrap();
    assert_eq!(
        s.add_user(Some(&unknown), user("a", 1, "x")),
        Err(user::AddError::Auth(EnsureAuthError::Invalid))
    );
    let rw = s.gen_auth(&Desc { read: true, write: true, remove: false }).unwrap();
    assert_eq!(s.add_user(Some(&rw), user("a", 1, "x")).map(|o| o.existed()), Ok(false));
}

#[test]
fn read_and_remove_gates() {
    let mut s = open_store(true, false, true);
    s.add_user(None, user("a", 1, "x")).unwrap();
    let name = Username::from_str("a").unwrap();
    assert_eq!(s.user_by_name(None, &name), Err(user::GetByNameError::Auth(EnsureAuthError::Required)));
    assert_eq!(s.search_users(None, &vec![0]), Err(user::SearchError::Auth(EnsureAuthError::Required)));
    assert_eq!(
        s.remove_user_by_name(None, &name),
        Err(user::RemoveByNameError::Auth(EnsureAuthError::Required))
    );
    let k = s.gen_auth(&Desc { read: true, write: false, remove: false }).unwrap();
    assert_eq!(s.user_by_name(Some(&k), &name).unwrap().id, 1);
    assert_eq!(
        s.remove_user_by_name(Some(&k), &name),
        Err(user::RemoveByNameError::Auth(EnsureAuthError::NotAllowed))
    );
}

#[test]
fn generated_keys_are_alphanumeric_and_filed() {
    let mut s = open_store(true, true, true);
    let desc = Desc { read: true, write: false, remove: true };
    let k = s.gen_auth(&desc).unwrap();
    assert_eq!(k.as_str().len(), 16);
    assert!(k.as_str().chars().all(|c| c.is_ascii_alphanumeric()));
    assert_eq!(s.auth_desc_by_key(&k), Some(desc));
    let k2 = s.gen_auth(&desc).unwrap();
    assert_ne!(k.as_str(), k2.as_str());
}

#[test]
fn issuing_a_filed_key_again_fails() {
    let mut s = open_store(false, false, false);
    let desc = Desc::new_all_false();
    let k = Key::from_str("ABCDEFGHIJKLMNOP").unwrap();
    assert!(s.issue_key(k, desc).is_ok());
    let again = Key::from_str("ABCDEFGHIJKLMNOP").unwrap();
    assert_eq!(s.issue_key(again, desc).map(|_| ()), Err(GenError::Internal));
}

#[test]
fn ensure_auth_verdicts() {
    let mut s = open_store(true, false, false);
    assert_eq!(s.ensure_auth(Op::Write, None), Ok(()));
    assert_eq!(s.ensure_auth(Op::Read, None), Err(EnsureAuthError::Required));
    let k = s.gen_auth(&Desc { read: true, write: false, remove: false }).unwrap();
    assert_eq!(s.ensure_auth(Op::Read, Some(&k)), Ok(()));
}

#[test]
fn oversized_title_is_rejected_without_mutation() {
    let mut s = open_store(false, false, false);
    let big = "x".repeat(65536);
    assert_eq!(
        s.add_project(None, project(7, big)),
        Err(project::AddError::BadInput(ToDbReprError::TitleTooLong))
    );
    assert_eq!(s.project_by_id(None, &7), Err(project::GetByIdError::NotFound));
    // the next add takes heap identifier 0: nothing was stored before
    match s.add_project(None, project(7, "ok".to_string())).unwrap() {
        Outcome::Added(doc) => {
            assert_eq!(doc.id, 0);
            assert_eq!(doc.title, "ok");
        }
        Outcome::Existed => panic!(),
    }
}

#[test]
fn title_at_capacity_fits() {
    let mut s = open_store(false, false, false);
    let edge = "x".repeat(65535);
    assert!(s.add_project(None, project(1, edge.clone())).is_ok());
    assert_eq!(s.project_by_id(None, &1).unwrap().title, edge);
    // multi-byte characters count by their encoded length
    let wide = "é".repeat(32768);
    assert_eq!(
        s.add_project(None, project(2, wide)),
        Err(project::AddError::BadInput(ToDbReprError::TitleTooLong))
    );
}

#[test]
fn description_and_instructions_limits() {
    let mut p = project(3, "t".to_string());
    p.description = "d".repeat(70000);
    assert_eq!(p.clone().to_db_repr(), Err(ToDbReprError::DescriptionTooLong));
    p.description = "d".to_string();
    p.instructions = "i".repeat(70000);
    assert_eq!(p.to_db_repr(), Err(ToDbReprError::InstructionsTooLong));
}

#[test]
fn project_round_trip_and_flags() {
    let mut s = open_store(false, false, false);
    let p = project(42, "Title".to_string());
    let repr = p.clone().to_db_repr().unwrap();
    assert_eq!(repr.flags, 1 | 4 | 8);
    assert_eq!(repr.to_project(), p);
    assert!(!s.add_project(None, p.clone()).unwrap().existed());
    assert_eq!(s.add_project(None, project(42, "Other".to_string())), Ok(Outcome::Existed));
    assert_eq!(s.project_by_id(None, &42).unwrap(), p);
}

#[test]
fn project_write_gate() {
    let mut s = open_store(false, true, false);
    assert_eq!(
        s.add_project(None, project(1, "t".to_string())),
        Err(project::AddError::Auth(EnsureAuthError::Required))
    );
}
