use meowstore::auth::{Desc, Key, Op};
use meowstore::http::{InoutFormat, OptionAuthKey};
use meowstore::index::{OrderedIndex, Searched};
use meowstore::heap::Heap;
use meowstore::user::User;
use meowstore::Username;

#[test]
fn key_parsing() {
    let k = Key::from_str("abcdefghijklmnop").unwrap();
    assert_eq!(k.as_str(), "abcdefghijklmnop");
    assert_eq!(&k.as_bytes(), b"abcdefghijklmnop");
    assert_eq!(k.index_key(), u128::from_be_bytes(*b"abcdefghijklmnop"));
    assert!(Key::from_str("short").is_err());
    assert!(Key::from_str("abcdefghijklmnopq").is_err());
    assert!(Key::from_str("abcdefgh\nijklmno").is_err());
    assert!(Key::from_str("abcdefgh ijklmn~").is_ok());
}

#[test]
fn option_auth_key_header() {
    assert!(OptionAuthKey::from_str("not a key").as_ref().is_none());
    let h = OptionAuthKey::from_str("0123456789ABCDEF");
    assert_eq!(h.as_ref().unwrap().as_str(), "0123456789ABCDEF");
}

#[test]
fn inout_format_segments() {
    assert_eq!(InoutFormat::from_str("bin"), Ok(InoutFormat::Binary));
    assert_eq!(InoutFormat::from_str("json"), Ok(InoutFormat::Json));
    assert_eq!(InoutFormat::from_str("xml"), Err(()));
    assert_eq!(InoutFormat::from_str("binary"), Err(()));
}

#[test]
fn descriptor_checks() {
    let d = Desc::new_all_false();
    assert!(!d.is_op_allowed(Op::Read) && !d.is_op_allowed(Op::Write) && !d.is_op_allowed(Op::Remove));
    let d = Desc { read: false, write: true, remove: false };
    assert!(d.is_op_allowed(Op::Write));
    assert!(!d.is_op_allowed(Op::Remove));
    assert_eq!(Op::Remove.name(), "remove");
    assert_eq!(Op::Read.name(), "read");
}

#[test]
fn index_search_and_cursor() {
    let mut ix: OrderedIndex<u64> = OrderedIndex::new();
    for k in [50u128, 10, 30, 20, 40] {
        match ix.search(k) {
            Searched::Vacant(i) => ix.insert_at(i, k, (k * 2) as u64),
            Searched::Found(_) => panic!(),
        }
    }
    assert_eq!(ix.len(), 5);
    assert_eq!(ix.search(30), Searched::Found(2));
    assert_eq!(ix.search(35), Searched::Vacant(3));
    assert_eq!(ix.search(5), Searched::Vacant(0));
    assert_eq!(ix.search(99), Searched::Vacant(5));
    assert_eq!(ix.get(40), Some(80));
    assert_eq!(ix.get(41), None);
    ix.remove_at(0);
    assert_eq!(ix.get(10), None);
    assert_eq!(ix.value_at(0), 40);
}

#[test]
fn heap_reuses_freed_ids() {
    let mut h: Heap<u32> = Heap::new();
    let a = h.add(1);
    let b = h.add(2);
    assert_ne!(a, b);
    assert!(h.remove(a));
    assert!(!h.remove(a));
    assert_eq!(h.get(a), None);
    assert_eq!(h.add(3), a);
    assert_eq!(h.get(a), Some(&3));
    assert_eq!(h.get(b), Some(&2));
}

#[test]
fn user_stored_form_round_trip() {
    let u = User {
        name: Username::from_str("x_y").unwrap(),
        id: 9,
        scratch_team: true,
        status: "s".to_string(),
        bio: "b".to_string(),
        loves: 5,
        favorites: 6,
        views: 7,
        remixes: 8,
    };
    let v = u.clone().to_db_value();
    assert_eq!(v.fixed_data.loves, 5);
    assert_eq!(v.to_user(), u);
}
