use std::sync::Arc;

use meowstore::config::{RequireAuth, Root};
use meowstore::user::{self, User};
use meowstore::{Store, Username};
use tokio::sync::RwLock;

fn sample() -> User {
    User {
        name: Username::from_str("griffpatch").unwrap(),
        id: 104492,
        scratch_team: false,
        status: "Some status...".to_string(),
        bio: "Some cool bio!".to_string(),
        loves: 10,
        favorites: 20,
        views: 30,
        remixes: 40,
    }
}

#[test]
fn readers_see_before_or_after_an_add() {
    let rt = tokio::runtime::Builder::new_multi_thread().worker_threads(4).build().unwrap();
    rt.block_on(async {
        let store = Store::new(Root { require_auth: RequireAuth { read: false, write: false, remove: false } });
        let db = Arc::new(RwLock::new(store));
        let name = Username::from_str("griffpatch").unwrap();

        let writer = {
            let db = db.clone();
            tokio::spawn(async move {
                let mut guard = db.write().await;
                let out = guard.add_user(None, sample()).unwrap();
                // stands for the search-mirror round trip made under the write lock
                for _ in 0..50 {
                    tokio::task::yield_now().await;
                }
                out.existed()
            })
        };

        let mut readers = Vec::new();
        for _ in 0..32 {
            let db = db.clone();
            readers.push(tokio::spawn(async move {
                let guard = db.read().await;
                guard.user_by_name(None, &name)
            }));
        }

        assert!(!writer.await.unwrap());
        for r in readers {
            match r.await.unwrap() {
                Err(user::GetByNameError::NotFound) => {}
                Ok(u) => assert_eq!(u, sample()),
                Err(e) => panic!("unexpected error {:?}", e),
            }
        }
        assert_eq!(db.read().await.user_by_name(None, &name).unwrap(), sample());
    });
}
