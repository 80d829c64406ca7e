//! Notes, kept in one table and scoped to their creators: every read, update
//! and deletion is filtered by the requesting user.
use vstd::prelude::*;
use crate::auth::Bearer;
use crate::errors::StoreError;

verus! {

/// Why a write to a note was refused.
#[derive(Clone, Copy, Debug, PartialEq, Eq, Structural)]
pub enum DbErr {
    /// No note with that id belongs to the requesting user.
    Forbidden,
    /// The storage failed to apply the change.
    UpdateError,
}

/// A stored note.
#[derive(Debug)]
pub struct Note {
    pub id: i32,
    pub creator: String,
    pub title: Option<String>,
    pub content: String,
}

/// A batch of notes, as sent for a bulk update.
pub struct NotesList {
    pub notes: Vec<Note>,
}

/// A note to be created; its `creator` is always replaced by the creating
/// user.
#[derive(Debug)]
pub struct NoteForInsert {
    pub title: Option<String>,
    pub creator: String,
    pub content: String,
}

fn copy_text(s: &Option<String>) -> (r: Option<String>)
    ensures
        r == *s,
{
    match s {
        Some(t) => Some(t.clone()),
        None => None,
    }
}

impl Note {
    /// A copy of this note.
    pub fn duplicate(&self) -> (r: Note)
        ensures
            r == *self,
    {
        Note {
            id: self.id,
            creator: self.creator.clone(),
            title: copy_text(&self.title),
            content: self.content.clone(),
        }
    }
}

/// No two rows share an id.
pub open spec fn ids_unique(rows: Seq<Note>) -> bool {
    forall|i: int, j: int| 0 <= i < rows.len() && 0 <= j < rows.len() && i != j ==> rows[i].id != rows[j].id
}

/// `i` is the row with id `id`, created by `user`.
pub open spec fn owned_at(rows: Seq<Note>, i: int, id: i32, user: Seq<char>) -> bool {
    0 <= i < rows.len() && rows[i].id == id && rows[i].creator@ == user
}

/// A note with id `id` exists and was created by `user`.
pub open spec fn owns(rows: Seq<Note>, id: i32, user: Seq<char>) -> bool {
    exists|i: int| owned_at(rows, i, id, user)
}

/// The note with id `id` as `user` sees it: absent unless `user` created it.
pub open spec fn lookup(rows: Seq<Note>, id: i32, user: Seq<char>) -> Option<Note> {
    if owns(rows, id, user) {
        Some(rows[choose|i: int| owned_at(rows, i, id, user)])
    } else {
        None
    }
}

/// The notes of `user`, in the order they are stored.
pub open spec fn notes_of(rows: Seq<Note>, user: Seq<char>) -> Seq<Note>
    decreases rows.len(),
{
    if rows.len() == 0 {
        Seq::empty()
    } else if rows.last().creator@ == user {
        notes_of(rows.drop_last(), user).push(rows.last())
    } else {
        notes_of(rows.drop_last(), user)
    }
}

/// Row `r` with the title and content of `n`; id and creator stay.
pub open spec fn edited(r: Note, n: Note) -> Note {
    Note { id: r.id, creator: r.creator, title: n.title, content: n.content }
}

/// The rows after the note with the id of `n` takes the title and content
/// of `n`.
pub open spec fn apply_update(rows: Seq<Note>, n: Note) -> Seq<Note> {
    rows.map_values(|r: Note| if r.id == n.id { edited(r, n) } else { r })
}

/// The rows after updating `ns` one after another as `user`, and whether all
/// went through: the first note that `user` does not own stops the batch,
/// and the updates before it stay applied.
pub open spec fn bulk_update(rows: Seq<Note>, ns: Seq<Note>, user: Seq<char>) -> (Seq<Note>, bool)
    decreases ns.len(),
{
    if ns.len() == 0 {
        (rows, true)
    } else if owns(rows, ns[0].id, user) {
        bulk_update(apply_update(rows, ns[0]), ns.skip(1), user)
    } else {
        (rows, false)
    }
}

/// The table of notes. Ids are assigned from a counter and never reused.
pub struct NoteStore {
    notes: Vec<Note>,
    next_id: i32,
}

impl View for NoteStore {
    type V = Seq<Note>;

    closed spec fn view(&self) -> Seq<Note> {
        self.notes@
    }
}

impl NoteStore {
    /// Ids are unique and all lie below the next id to assign.
    pub closed spec fn wf(&self) -> bool {
        &&& ids_unique(self.notes@)
        &&& 1 <= self.next_id
        &&& forall|i: int| 0 <= i < self.notes@.len() ==> self.notes@[i].id < self.next_id
    }

    /// Another note can be given an id.
    pub closed spec fn has_room(&self) -> bool {
        self.next_id < i32::MAX
    }

    /// An empty table.
    pub fn new() -> (r: NoteStore)
        ensures
            r.wf(),
            r@ == Seq::<Note>::empty(),
            r.has_room(),
    {
        NoteStore { notes: Vec::new(), next_id: 1 }
    }

    /// In a well-formed table no two notes share an id.
    pub proof fn lemma_ids_unique(&self)
        requires
            self.wf(),
        ensures
            ids_unique(self@),
    {
    }

    /// Position of the note with id `id` created by `user`.
    fn find(&self, id: i32, user: &str) -> (r: Option<usize>)
        requires
            self.wf(),
        ensures
            match r {
                Some(i) => owned_at(self@, i as int, id, user@),
                None => !owns(self@, id, user@),
            },
    {
        let mut i: usize = 0;
        while i < self.notes.len()
            invariant
                i <= self.notes@.len(),
                forall|j: int| 0 <= j < i ==> !owned_at(self.notes@, j, id, user@),
            decreases self.notes@.len() - i,
        {
            if self.notes[i].id == id && crate::text::same_text(self.notes[i].creator.as_str(), user) {
                return Some(i);
            }
            i = i + 1;
        }
        None
    }
}

/// Stores `note` as a new note of `user`, whatever creator it names, under a
/// fresh id, and returns the stored note. Fails, changing nothing, when no id
/// is left.
pub fn create(note: NoteForInsert, user: &Bearer, store: &mut NoteStore) -> (r: Result<Note, StoreError>)
    requires
        old(store).wf(),
    ensures
        final(store).wf(),
        r is Ok <==> old(store).has_room(),
        r matches Ok(n) ==> {
            &&& n.creator@ == user.0@
            &&& n.title == note.title
            &&& n.content == note.content
            &&& forall|i: int| 0 <= i < old(store)@.len() ==> old(store)@[i].id != n.id
            &&& final(store)@ == old(store)@.push(n)
        },
        r matches Err(e) ==> e == StoreError::Other && final(store)@ == old(store)@,
{
    if store.next_id == i32::MAX {
        return Err(StoreError::Other);
    }
    let id = store.next_id;
    let stored = Note { id, creator: user.0.clone(), title: note.title, content: note.content };
    let result = stored.duplicate();
    store.notes.push(stored);
    store.next_id = id + 1;
    Ok(result)
}

/// Stores a new untitled, empty note of `user`, as `create` does.
pub fn create_empty_note(user: &Bearer, store: &mut NoteStore) -> (r: Result<Note, StoreError>)
    requires
        old(store).wf(),
    ensures
        final(store).wf(),
        r is Ok <==> old(store).has_room(),
        r matches Ok(n) ==> {
            &&& n.creator@ == user.0@
            &&& n.title is None
            &&& n.content@ == Seq::<char>::empty()
            &&& forall|i: int| 0 <= i < old(store)@.len() ==> old(store)@[i].id != n.id
            &&& final(store)@ == old(store)@.push(n)
        },
        r matches Err(e) ==> e == StoreError::Other && final(store)@ == old(store)@,
{
    let empty = NoteForInsert { title: None, creator: String::new(), content: String::new() };
    create(empty, user, store)
}

/// The note with id `id`, if `user` created it; a note of another user is
/// as absent as one that does not exist.
pub fn get_note(id: i32, user: &Bearer, store: &NoteStore) -> (r: Option<Note>)
    requires
        store.wf(),
    ensures
        r == lookup(store@, id, user.0@),
{
    match store.find(id, user.0.as_str()) {
        Some(i) => {
            let ghost c = choose|c: int| owned_at(store@, c, id, user.0@);
            assert(c == i);
            Some(store.notes[i].duplicate())
        },
        None => None,
    }
}

/// Gives the note with the id of `note` the title and content of `note`,
/// if `user` created it; id and creator never change. Otherwise forbidden,
/// changing nothing.
pub fn update(note: Note, user: &Bearer, store: &mut NoteStore) -> (r: Result<(), DbErr>)
    requires
        old(store).wf(),
    ensures
        final(store).wf(),
        old(store).has_room() == final(store).has_room(),
        owns(old(store)@, note.id, user.0@) ==> r is Ok && final(store)@ == apply_update(
            old(store)@,
            note,
        ),
        !owns(old(store)@, note.id, user.0@) ==> r == Err::<(), DbErr>(DbErr::Forbidden)
            && final(store)@ == old(store)@,
{
    match store.find(note.id, user.0.as_str()) {
        Some(i) => {
            let ghost before = store.notes@;
            let ghost n = note;
            let creator = store.notes[i].creator.clone();
            store.notes[i] = Note { id: note.id, creator, title: note.title, content: note.content };
            assert(store.notes@ =~= apply_update(before, n));
            Ok(())
        },
        None => Err(DbErr::Forbidden),
    }
}

/// Updates `notes` one after another as `user`. The batch is not atomic: it
/// stops at the first note that `user` does not own, with the updates before
/// it applied.
pub fn update_bulk(notes: Vec<Note>, user: &Bearer, store: &mut NoteStore) -> (r: Result<(), DbErr>)
    requires
        old(store).wf(),
    ensures
        final(store).wf(),
        (final(store)@, r is Ok) == bulk_update(old(store)@, notes@, user.0@),
        r is Err ==> r == Err::<(), DbErr>(DbErr::Forbidden),
{
    let mut i: usize = 0;
    assert(notes@.skip(0) =~= notes@);
    while i < notes.len()
        invariant
            store.wf(),
            i <= notes@.len(),
            bulk_update(old(store)@, notes@, user.0@) == bulk_update(store@, notes@.skip(i as int), user.0@),
        decreases notes@.len() - i,
    {
        let ghost rest = notes@.skip(i as int);
        assert(rest.skip(1) =~= notes@.skip(i + 1));
        let r = update(notes[i].duplicate(), user, store);
        if r.is_err() {
            return r;
        }
        i = i + 1;
    }
    Ok(())
}

/// All notes that `user` created.
pub fn get_notes(user: &Bearer, store: &NoteStore) -> (r: Vec<Note>)
    ensures
        r@ == notes_of(store@, user.0@),
{
    let mut out: Vec<Note> = Vec::new();
    let mut i: usize = 0;
    assert(store@.take(0) =~= Seq::<Note>::empty());
    while i < store.notes.len()
        invariant
            i <= store@.len(),
            store@ == store.notes@,
            out@ == notes_of(store@.take(i as int), user.0@),
        decreases store@.len() - i,
    {
        assert(store@.take(i + 1).drop_last() =~= store@.take(i as int));
        if crate::text::same_text(store.notes[i].creator.as_str(), user.0.as_str()) {
            out.push(store.notes[i].duplicate());
        }
        i = i + 1;
    }
    assert(store@.take(i as int) =~= store@);
    out
}

/// Removes the note with id `id` if `user` created it; otherwise forbidden,
/// changing nothing.
pub fn delete_note(id: i32, user: &Bearer, store: &mut NoteStore) -> (r: Result<(), DbErr>)
    requires
        old(store).wf(),
    ensures
        final(store).wf(),
        old(store).has_room() == final(store).has_room(),
        owns(old(store)@, id, user.0@) ==> r is Ok && exists|i: int|
            owned_at(old(store)@, i, id, user.0@) && final(store)@ == old(store)@.remove(i),
        !owns(old(store)@, id, user.0@) ==> r == Err::<(), DbErr>(DbErr::Forbidden) && final(store)@
            == old(store)@,
{
    match store.find(id, user.0.as_str()) {
        Some(i) => {
            store.notes.remove(i);
            Ok(())
        },
        None => Err(DbErr::Forbidden),
    }
}

/// A note created by one user is invisible to every other user, and no other
/// user owns it: reading it finds nothing, and updating or deleting it is
/// forbidden and leaves the table as it was.
pub proof fn lemma_foreign_note_untouchable(rows: Seq<Note>, i: int, other: Seq<char>)
    requires
        ids_unique(rows),
        0 <= i < rows.len(),
        rows[i].creator@ != other,
    ensures
        !owns(rows, rows[i].id, other),
        lookup(rows, rows[i].id, other) is None,
{
    assert forall|j: int| !owned_at(rows, j, rows[i].id, other) by {
        if owned_at(rows, j, rows[i].id, other) {
            assert(j != i);
        }
    }
}

/// A note stored under a fresh id is found again by that id for its
/// creator, exactly as it was stored.
pub proof fn lemma_created_note_found(rows: Seq<Note>, n: Note)
    requires
        ids_unique(rows),
        forall|i: int| 0 <= i < rows.len() ==> rows[i].id != n.id,
    ensures
        lookup(rows.push(n), n.id, n.creator@) == Some(n),
{
    let all = rows.push(n);
    assert(owned_at(all, rows.len() as int, n.id, n.creator@));
    let c = choose|c: int| owned_at(all, c, n.id, n.creator@);
    assert(c == rows.len() as int);
}

} // verus!
