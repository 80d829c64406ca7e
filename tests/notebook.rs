use noteauth::auth::Bearer;
use noteauth::notes::{
    create, delete_note, get_note, get_notes, update, update_bulk, DbErr, Note, NoteForInsert, NoteStore,
};

fn who(u: &str) -> Bearer {
    Bearer(u.to_string())
}

fn input(title: Option<&str>, creator: &str, content: &str) -> NoteForInsert {
    NoteForInsert { title: title.map(|t| t.to_string()), creator: creator.to_string(), content: content.to_string() }
}

#[test]
fn create_forces_creator_and_round_trips() {
    let mut store = NoteStore::new();
    let n = create(input(Some("t"), "mallory", "c"), &who("alice"), &mut store).unwrap();
    assert_eq!(n.creator, "alice");
    assert_eq!(n.title, Some("t".to_string()));
    assert_eq!(n.content, "c");
    let g = get_note(n.id, &who("alice"), &store).unwrap();
    assert_eq!((g.id, g.creator, g.title, g.content), (n.id, n.creator.clone(), n.title.clone(), n.content.clone()));
    let m = create(input(None, "", ""), &who("alice"), &mut store).unwrap();
    assert_ne!(m.id, n.id);
}

#[test]
fn foreign_notes_are_untouchable() {
    let mut store = NoteStore::new();
    let n = create(input(Some("t"), "", "c"), &who("alice"), &mut store).unwrap();
    assert!(get_note(n.id, &who("bob"), &store).is_none());
    let edit = Note { id: n.id, creator: "bob".to_string(), title: None, content: "hacked".to_string() };
    assert_eq!(update(edit, &who("bob"), &mut store), Err(DbErr::Forbidden));
    assert_eq!(delete_note(n.id, &who("bob"), &mut store), Err(DbErr::Forbidden));
    let g = get_note(n.id, &who("alice"), &store).unwrap();
    assert_eq!(g.content, "c");
    assert_eq!(g.title, Some("t".to_string()));
    assert!(get_note(n.id + 100, &who("alice"), &store).is_none());
}

#[test]
fn update_keeps_id_and_creator() {
    let mut store = NoteStore::new();
    let n = create(input(Some("t"), "", "c"), &who("alice"), &mut store).unwrap();
    let edit = Note { id: n.id, creator: "bob".to_string(), title: None, content: "new".to_string() };
    assert_eq!(update(edit, &who("alice"), &mut store), Ok(()));
    let g = get_note(n.id, &who("alice"), &store).unwrap();
    assert_eq!(g.creator, "alice");
    assert_eq!(g.title, None);
    assert_eq!(g.content, "new");
    assert!(get_note(n.id, &who("bob"), &store).is_none());
}

#[test]
fn bulk_update_stops_at_first_foreign_note() {
    let mut store = NoteStore::new();
    let a = create(input(None, "", "a"), &who("alice"), &mut store).unwrap();
    let b = create(input(None, "", "b"), &who("bob"), &mut store).unwrap();
    let a2 = create(input(None, "", "a2"), &who("alice"), &mut store).unwrap();
    let batch = vec![
        Note { id: a.id, creator: "alice".to_string(), title: None, content: "A".to_string() },
        Note { id: b.id, creator: "alice".to_string(), title: None, content: "B".to_string() },
        Note { id: a2.id, creator: "alice".to_string(), title: None, content: "A2".to_string() },
    ];
    assert_eq!(update_bulk(batch, &who("alice"), &mut store), Err(DbErr::Forbidden));
    assert_eq!(get_note(a.id, &who("alice"), &store).unwrap().content, "A");
    assert_eq!(get_note(b.id, &who("bob"), &store).unwrap().content, "b");
    assert_eq!(get_note(a2.id, &who("alice"), &store).unwrap().content, "a2");
    let ok = vec![Note { id: a2.id, creator: String::new(), title: Some("x".to_string()), content: "A2".to_string() }];
    assert_eq!(update_bulk(ok, &who("alice"), &mut store), Ok(()));
    assert_eq!(get_note(a2.id, &who("alice"), &store).unwrap().content, "A2");
    assert_eq!(update_bulk(vec![], &who("alice"), &mut store), Ok(()));
}

#[test]
fn listing_and_deleting_are_scoped() {
    let mut store = NoteStore::new();
    let a = create(input(None, "", "a"), &who("alice"), &mut store).unwrap();
    create(input(None, "", "b"), &who("bob"), &mut store).unwrap();
    let a2 = create(input(None, "", "a2"), &who("alice"), &mut store).unwrap();
    let mine = get_notes(&who("alice"), &store);
    assert_eq!(mine.iter().map(|n| n.id).collect::<Vec<_>>(), vec![a.id, a2.id]);
    assert_eq!(get_notes(&who("carol"), &store).len(), 0);
    assert_eq!(delete_note(a.id, &who("alice"), &mut store), Ok(()));
    assert!(get_note(a.id, &who("alice"), &store).is_none());
    assert_eq!(delete_note(a.id, &who("alice"), &mut store), Err(DbErr::Forbidden));
    assert_eq!(get_notes(&who("alice"), &store).len(), 1);
    assert_eq!(get_notes(&who("bob"), &store).len(), 1);
}

#[test]
fn note_duplicate_is_equal() {
    let n = Note { id: 3, creator: "a".to_string(), title: Some("t".to_string()), content: "c".to_string() };
    let d = n.duplicate();
    assert_eq!((d.id, d.creator, d.title, d.content), (3, "a".to_string(), Some("t".to_string()), "c".to_string()));
}

#[test]
fn empty_note_is_untitled_and_owned() {
    let mut store = NoteStore::new();
    let n = noteauth::notes::create_empty_note(&who("dave"), &mut store).unwrap();
    assert_eq!(n.creator, "dave");
    assert_eq!(n.title, None);
    assert_eq!(n.content, "");
    assert!(get_note(n.id, &who("dave"), &store).is_some());
}
