use game_core::input::command::CommandDirectory;

#[test]
fn a_new_directory_is_empty() {
    let d = CommandDirectory::new();
    assert!(d.is_empty());
    assert_eq!(d.len(), 0);
    assert!(d.get_command_by_name("jump").is_none());
    assert!(d.get_command_by_id(0).is_none());
}

#[test]
fn registration_hands_out_sequential_ids() {
    let mut d = CommandDirectory::new();
    let jump = d.register_command(String::from("jump"));
    let fire = d.register_command(String::from("fire"));
    assert_eq!(jump.id, 0);
    assert_eq!(fire.id, 1);
    assert_eq!(jump.name, "jump");
    assert_eq!(fire.name, "fire");
    assert!(!d.is_empty());
    assert_eq!(d.len(), 2);
}

#[test]
fn lookup_by_name_and_id_round_trip() {
    let mut d = CommandDirectory::new();
    d.register_command(String::from("jump"));
    d.register_command(String::from("fire"));
    let by_name = d.get_command_by_name("fire").unwrap();
    assert_eq!(by_name.id, 1);
    let by_id = d.get_command_by_id(by_name.id).unwrap();
    assert_eq!(by_id.name, "fire");
    assert!(d.get_command_by_name("duck").is_none());
    assert!(d.get_command_by_id(2).is_none());
}

#[test]
fn re_registering_a_name_wins_with_the_newest_id() {
    let mut d = CommandDirectory::new();
    d.register_command(String::from("jump"));
    d.register_command(String::from("fire"));
    let again = d.register_command(String::from("jump"));
    assert_eq!(again.id, 2);
    // Lookup by name resolves to the newest registration; both ids still
    // resolve by id; the distinct-name count does not grow.
    assert_eq!(d.get_command_by_name("jump").unwrap().id, 2);
    assert_eq!(d.get_command_by_id(0).unwrap().name, "jump");
    assert_eq!(d.get_command_by_id(2).unwrap().name, "jump");
    assert_eq!(d.len(), 2);
}

#[test]
fn empty_name_is_an_ordinary_name() {
    let mut d = CommandDirectory::new();
    let c = d.register_command(String::new());
    assert_eq!(c.id, 0);
    assert_eq!(d.get_command_by_name("").unwrap().id, 0);
    assert_eq!(d.len(), 1);
}
