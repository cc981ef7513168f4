use server_boot::dispatch::{load_or_create, run_command, AdminCommand, Store};
use server_boot::ids::RoomId;
use server_boot::store::AliasStore;

fn room(s: &str) -> RoomId {
    RoomId::new(s).expect("valid room identifier")
}

fn populated_store() -> AliasStore {
    let mut aliases = AliasStore::new();
    assert!(aliases.insert_alias("#general:room.example".to_string(), room("!abc:room.example")));
    assert!(aliases.insert_alias("#offtopic:room.example".to_string(), room("!abc:room.example")));
    assert!(aliases.insert_alias("#other:room.example".to_string(), room("!xyz:room.example")));
    aliases
}

#[test]
fn room_id_accepts_valid_identifier() {
    let id = RoomId::new("!29fhd83h92h0:example.com").expect("accepted");
    assert_eq!(id.as_str(), "!29fhd83h92h0:example.com");
}

#[test]
fn room_id_rejects_missing_sigil() {
    assert!(RoomId::new("carl:example.com").is_none());
    assert!(RoomId::new("").is_none());
}

#[test]
fn room_id_equality_is_by_string() {
    let a = room("!abc:room.example");
    let b = room("!abc:room.example");
    let c = room("!xyz:room.example");
    assert!(a.equals(&b));
    assert!(!a.equals(&c));
    assert!(a.equals(&a.duplicate()));
}

#[test]
fn purge_removes_exactly_the_rooms_aliases() {
    let mut aliases = populated_store();
    let removed = aliases.remove_all_aliases(&room("!abc:room.example"));
    assert_eq!(removed, 2);
    assert_eq!(aliases.len(), 1);
    assert!(!aliases.holds_alias(&"#general:room.example".to_string()));
    assert!(!aliases.holds_alias(&"#offtopic:room.example".to_string()));
    let left = aliases.resolve(&"#other:room.example".to_string()).expect("kept");
    assert_eq!(left.as_str(), "!xyz:room.example");
}

#[test]
fn purge_twice_changes_nothing_more() {
    let mut aliases = populated_store();
    let first = aliases.remove_all_aliases(&room("!abc:room.example"));
    assert_eq!(first, 2);
    let second = aliases.remove_all_aliases(&room("!abc:room.example"));
    assert_eq!(second, 0);
    assert_eq!(aliases.len(), 1);
    let left = aliases.resolve(&"#other:room.example".to_string()).expect("kept");
    assert_eq!(left.as_str(), "!xyz:room.example");
}

#[test]
fn purge_of_unknown_room_reports_zero() {
    let mut aliases = populated_store();
    let removed = aliases.remove_all_aliases(&room("!nobody:room.example"));
    assert_eq!(removed, 0);
    assert_eq!(aliases.len(), 3);
}

#[test]
fn purge_leaves_other_rooms_untouched() {
    let mut aliases = populated_store();
    aliases.remove_all_aliases(&room("!xyz:room.example"));
    assert_eq!(aliases.len(), 2);
    let general = aliases.resolve(&"#general:room.example".to_string()).expect("kept");
    assert_eq!(general.as_str(), "!abc:room.example");
    let offtopic = aliases.resolve(&"#offtopic:room.example".to_string()).expect("kept");
    assert_eq!(offtopic.as_str(), "!abc:room.example");
    assert!(aliases.resolve(&"#other:room.example".to_string()).is_none());
}

#[test]
fn insert_rejects_duplicate_alias() {
    let mut aliases = AliasStore::new();
    assert!(aliases.insert_alias("#a:room.example".to_string(), room("!abc:room.example")));
    assert!(!aliases.insert_alias("#a:room.example".to_string(), room("!xyz:room.example")));
    assert_eq!(aliases.len(), 1);
    let target = aliases.resolve(&"#a:room.example".to_string()).expect("kept");
    assert_eq!(target.as_str(), "!abc:room.example");
}

#[test]
fn resolve_of_unknown_alias_is_none() {
    let aliases = populated_store();
    assert!(aliases.resolve(&"#missing:room.example".to_string()).is_none());
}

#[test]
fn load_or_create_on_fresh_location_creates_empty_store() {
    let store = load_or_create(None);
    assert_eq!(store.aliases.len(), 0);
    assert_eq!(store.rooms.len(), 0);
}

#[test]
fn load_or_create_twice_converges_to_the_same_store() {
    let first = load_or_create(None);
    assert_eq!(first.aliases.len(), 0);
    let second = load_or_create(Some(first));
    assert_eq!(second.aliases.len(), 0);
    assert_eq!(second.rooms.len(), 0);
}

#[test]
fn load_or_create_opens_an_existing_store_as_it_is() {
    let existing = Store { aliases: populated_store(), rooms: Vec::new() };
    let opened = load_or_create(Some(existing));
    assert_eq!(opened.aliases.len(), 3);
    let general = opened.aliases.resolve(&"#general:room.example".to_string()).expect("kept");
    assert_eq!(general.as_str(), "!abc:room.example");
}

#[test]
fn run_command_purges_and_reports_the_count() {
    let mut store = Store { aliases: populated_store(), rooms: Vec::new() };
    let cmd = AdminCommand::PurgeRoomAliases(room("!abc:room.example"));
    let removed = run_command(&mut store, &cmd);
    assert_eq!(removed, 2);
    assert_eq!(store.aliases.len(), 1);
    let again = run_command(&mut store, &cmd);
    assert_eq!(again, 0);
    assert_eq!(store.aliases.len(), 1);
}
