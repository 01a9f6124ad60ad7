use teamauth::auth::User as AuthUser;
use teamauth::db::TeamStore;
use teamauth::error::Error;
use teamauth::ids::u64_to_string;

fn identity(id: &str) -> AuthUser {
    AuthUser {
        id: String::from(id),
        name: format!("name of {id}"),
        email: format!("{id}@example.com"),
    }
}

#[test]
fn create_team_links_creator() {
    let mut store = TeamStore::new();
    let alice = identity("alice");
    let team = store.create_team(&alice, String::from("Alpha")).unwrap();
    assert_eq!(team.id, "0");
    assert_eq!(team.name, "Alpha");
    assert_eq!(team.film_name, "");
    assert_eq!(team.film_description, "");
    assert!(!team.has_file);
    let current = store.get_team(&alice).unwrap().unwrap();
    assert_eq!(current.id, "0");
    assert_eq!(current.name, "Alpha");
}

#[test]
fn create_while_in_team_fails_and_changes_nothing() {
    let mut store = TeamStore::new();
    let alice = identity("alice");
    store.create_team(&alice, String::from("Alpha")).unwrap();
    let second = store.create_team(&alice, String::from("Beta"));
    assert!(matches!(second, Err(Error::InTeam)));
    // the caller remains linked only to the first team, and no orphan row exists
    let current = store.get_team(&alice).unwrap().unwrap();
    assert_eq!(current.name, "Alpha");
    let teams = store.get_teams().unwrap();
    assert_eq!(teams.len(), 1);
    assert_eq!(teams[0].name, "Alpha");
}

#[test]
fn second_create_with_same_name_fails_with_name_taken() {
    let mut store = TeamStore::new();
    let alice = identity("alice");
    let bob = identity("bob");
    assert!(store.create_team(&alice, String::from("Foo")).is_ok());
    let second = store.create_team(&bob, String::from("Foo"));
    match second {
        Err(Error::TeamNameTaken(name)) => assert_eq!(name, "Foo"),
        other => panic!("expected TeamNameTaken, got {other:?}"),
    }
    assert!(store.get_team(&bob).unwrap().is_none());
}

#[test]
fn join_unknown_team_fails_and_changes_nothing() {
    let mut store = TeamStore::new();
    let alice = identity("alice");
    let r = store.join_team(&alice, String::from("42"));
    match r {
        Err(Error::NoSuchTeam(id)) => assert_eq!(id, "42"),
        other => panic!("expected NoSuchTeam, got {other:?}"),
    }
    assert!(store.get_team(&alice).unwrap().is_none());
}

#[test]
fn join_then_second_join_fails() {
    let mut store = TeamStore::new();
    let alice = identity("alice");
    let bob = identity("bob");
    let team = store.create_team(&alice, String::from("Alpha")).unwrap();
    let joined = store.join_team(&bob, team.id.clone()).unwrap();
    assert_eq!(joined.name, "Alpha");
    store.create_team(&alice, String::from("Gamma")).err().unwrap();
    let again = store.join_team(&bob, team.id.clone());
    assert!(matches!(again, Err(Error::InTeam)));
}

#[test]
fn leave_without_team_fails_with_not_in_team() {
    let mut store = TeamStore::new();
    let alice = identity("alice");
    assert!(matches!(store.leave_team(&alice), Err(Error::NotInTeam)));
}

#[test]
fn leave_then_rejoin() {
    let mut store = TeamStore::new();
    let alice = identity("alice");
    let team = store.create_team(&alice, String::from("Alpha")).unwrap();
    store.leave_team(&alice).unwrap();
    assert!(store.get_team(&alice).unwrap().is_none());
    assert!(matches!(store.leave_team(&alice), Err(Error::NotInTeam)));
    let rejoined = store.join_team(&alice, team.id.clone()).unwrap();
    assert_eq!(rejoined.name, "Alpha");
}

#[test]
fn members_listing_requires_membership_or_admin() {
    let mut store = TeamStore::new();
    let alice = identity("alice");
    let bob = identity("bob");
    let carol = identity("carol");
    store.get_user(&alice).unwrap();
    store.get_user(&bob).unwrap();
    store.get_user(&carol).unwrap();
    let team = store.create_team(&alice, String::from("Alpha")).unwrap();
    store.join_team(&bob, team.id.clone()).unwrap();
    // a non-member, non-admin caller is turned away
    match store.get_team_members(&carol, team.id.clone()) {
        Err(Error::TeamAccessDenied(id)) => assert_eq!(id, team.id),
        other => panic!("expected TeamAccessDenied, got {other:?}"),
    }
    // a member sees the exact current list
    let members = store.get_team_members(&alice, team.id.clone()).unwrap();
    let mut ids: Vec<String> = members.iter().map(|m| m.id.clone()).collect();
    ids.sort();
    assert_eq!(ids, vec![String::from("alice"), String::from("bob")]);
    // an admin sees it too
    assert!(store.set_admin(&String::from("carol"), true));
    let members = store.get_team_members(&carol, team.id.clone()).unwrap();
    assert_eq!(members.len(), 2);
    // an empty team lists as empty, not as an error
    store.leave_team(&alice).unwrap();
    store.leave_team(&bob).unwrap();
    let members = store.get_team_members(&carol, team.id.clone()).unwrap();
    assert!(members.is_empty());
}

#[test]
fn get_user_creates_row_on_first_sight() {
    let mut store = TeamStore::new();
    let alice = identity("alice");
    let row = store.get_user(&alice).unwrap();
    assert_eq!(row.id, "alice");
    assert_eq!(row.name, "name of alice");
    assert_eq!(row.email, "alice@example.com");
    assert!(!row.is_admin);
    // a second sight returns the same row without duplicating it
    let again = store.get_user(&alice).unwrap();
    assert_eq!(again.id, "alice");
    assert!(matches!(store.is_user_admin(&alice), Ok(false)));
    assert!(store.set_admin(&String::from("alice"), true));
    assert!(matches!(store.is_user_admin(&alice), Ok(true)));
}

#[test]
fn minted_team_ids_count_up() {
    let mut store = TeamStore::new();
    let a = identity("a");
    let b = identity("b");
    let c = identity("c");
    assert_eq!(store.create_team(&a, String::from("A")).unwrap().id, "0");
    assert_eq!(store.create_team(&b, String::from("B")).unwrap().id, "1");
    assert_eq!(store.create_team(&c, String::from("C")).unwrap().id, "2");
}

#[test]
fn decimal_rendering_is_exact() {
    assert_eq!(u64_to_string(0), "0");
    assert_eq!(u64_to_string(7), "7");
    assert_eq!(u64_to_string(10), "10");
    assert_eq!(u64_to_string(123456789), "123456789");
    assert_eq!(u64_to_string(u64::MAX), "18446744073709551615");
}

#[test]
fn error_codes_statuses_and_messages() {
    assert_eq!(Error::EnvVarMissing(String::from("X")).as_number(), 1);
    assert_eq!(Error::ServerStartError.as_number(), 2);
    assert_eq!(Error::DbConnectError.as_number(), 3);
    assert_eq!(Error::DbQueryError.as_number(), 4);
    assert_eq!(Error::DbMigrationError.as_number(), 4);
    assert_eq!(Error::NotInTeam.as_number(), 238);
    assert_eq!(Error::TeamAccessDenied(String::from("t")).as_number(), 239);
    assert_eq!(Error::TeamNameTaken(String::from("t")).as_number(), 240);
    assert_eq!(Error::InTeam.as_number(), 241);
    assert_eq!(Error::NoSuchTeam(String::from("t")).as_number(), 242);
    assert_eq!(Error::Unauthorized.as_number(), 243);
    assert_eq!(Error::NotImplemented.as_number(), 254);
    assert_eq!(Error::InternalError.as_number(), 255);

    assert_eq!(Error::InTeam.status_code(), 400);
    assert_eq!(Error::NoSuchTeam(String::from("t")).status_code(), 400);
    assert_eq!(Error::NotInTeam.status_code(), 400);
    assert_eq!(Error::Unauthorized.status_code(), 401);
    assert_eq!(Error::TeamAccessDenied(String::from("t")).status_code(), 403);
    assert_eq!(Error::NotImplemented.status_code(), 501);
    assert_eq!(Error::InternalError.status_code(), 500);
    assert_eq!(Error::DbConnectError.status_code(), 500);

    assert_eq!(
        Error::NoSuchTeam(String::from("42")).message(),
        "No team with the code 42 exists"
    );
    assert_eq!(
        Error::TeamNameTaken(String::from("Foo")).message(),
        "Sorry, the team name Foo was taken, choose another one"
    );
    assert_eq!(
        Error::TeamAccessDenied(String::from("0")).message(),
        "You do not have permission to access the team 0"
    );
    assert_eq!(
        Error::EnvVarMissing(String::from("AUTH0_DOMAIN")).message(),
        "Missing environment variable: AUTH0_DOMAIN"
    );
    assert_eq!(Error::Unauthorized.message(), "Unauthorized");
}
