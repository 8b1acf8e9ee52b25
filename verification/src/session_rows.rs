//! The rows of the session manager: past sessions and memories.
use crate::settings;
use crate::text;
use vstd::prelude::*;

verus! {

/// A past session.
#[derive(Debug)]
pub struct SessionRow {
    pub path: String,
    pub id: String,
    pub headless: bool,
    pub note: Option<String>,
    pub size_kb: u64,
    pub modified: u64,
    pub is_current: bool,
}

/// A memory.
#[derive(Debug)]
pub struct MemoryRow {
    pub filename: String,
    pub name: String,
    pub desc: String,
    pub mtype: String,
    pub size_kb: u64,
    pub modified: u64,
}

/// What the row of a session holds.
#[verifier::ext_equal]
pub struct SessionRowView {
    pub path: Seq<char>,
    pub id: Seq<char>,
    pub headless: bool,
    pub note: Option<Seq<char>>,
    pub size_kb: u64,
    pub modified: u64,
    pub is_current: bool,
}

impl View for SessionRow {
    type V = SessionRowView;

    open spec fn view(&self) -> SessionRowView {
        SessionRowView {
            path: self.path@,
            id: self.id@,
            headless: self.headless,
            note: settings::opt_text(self.note),
            size_kb: self.size_kb,
            modified: self.modified,
            is_current: self.is_current,
        }
    }
}

/// What the row of a memory holds.
#[verifier::ext_equal]
pub struct MemoryRowView {
    pub filename: Seq<char>,
    pub name: Seq<char>,
    pub desc: Seq<char>,
    pub mtype: Seq<char>,
    pub size_kb: u64,
    pub modified: u64,
}

impl View for MemoryRow {
    type V = MemoryRowView;

    open spec fn view(&self) -> MemoryRowView {
        MemoryRowView {
            filename: self.filename@,
            name: self.name@,
            desc: self.desc@,
            mtype: self.mtype@,
            size_kb: self.size_kb,
            modified: self.modified,
        }
    }
}

/// The rows of a page.
#[verifier::opaque]
pub open spec fn session_views(v: Seq<SessionRow>) -> Seq<SessionRowView> {
    v.map_values(|r: SessionRow| r@)
}

/// What rows of memories hold.
#[verifier::opaque]
pub open spec fn memory_views(v: Seq<MemoryRow>) -> Seq<MemoryRowView> {
    v.map_values(|r: MemoryRow| r@)
}

pub broadcast proof fn lemma_session_views(v: Seq<SessionRow>)
    ensures
        (#[trigger] session_views(v)).len() == v.len(),
        forall|i: int| 0 <= i < v.len() ==> #[trigger] session_views(v)[i] == v[i]@,
{
    reveal(session_views);
}

pub broadcast proof fn lemma_memory_views(v: Seq<MemoryRow>)
    ensures
        (#[trigger] memory_views(v)).len() == v.len(),
        forall|i: int| 0 <= i < v.len() ==> #[trigger] memory_views(v)[i] == v[i]@,
{
    reveal(memory_views);
}

pub broadcast group group_row_views {
    lemma_session_views,
    lemma_memory_views,
}

/// A session file as it is found on disk.
#[derive(Debug)]
pub struct SessionFile {
    pub path: String,
    /// The file's name without its extension, where it has a name.
    pub stem: Option<String>,
    pub headless: bool,
    pub note: Option<String>,
    /// The size in bytes, 0 where it is not known.
    pub size: u64,
    /// The time of the last change, 0 where it is not known.
    pub modified: u64,
}

/// A memory file as it is found on disk.
#[derive(Debug)]
pub struct MemoryFile {
    pub filename: String,
    pub name: String,
    pub description: String,
    pub mtype: String,
    pub size: u64,
    pub modified: u64,
}

/// The row of a session: its file's name is its id, and it is the current one where
/// that is the current id.
pub open spec fn row_of_session(f: SessionFile, current: Seq<char>) -> SessionRowView {
    SessionRowView {
        path: f.path@,
        id: settings::text_or_empty(settings::opt_text(f.stem)),
        headless: f.headless,
        note: settings::opt_text(f.note),
        size_kb: f.size / 1024,
        modified: f.modified,
        is_current: settings::opt_text(f.stem) == Some(current),
    }
}

/// The row of a memory.
pub open spec fn row_of_memory(f: MemoryFile) -> MemoryRowView {
    MemoryRowView {
        filename: f.filename@,
        name: f.name@,
        desc: f.description@,
        mtype: f.mtype@,
        size_kb: f.size / 1024,
        modified: f.modified,
    }
}

/// The rows of the sessions.
pub fn session_rows(files: &Vec<SessionFile>, current: &str) -> (r: Vec<SessionRow>)
    ensures
        session_views(r@) == files@.map_values(|f: SessionFile| row_of_session(f, current@)),
{
    let ghost all = files@.map_values(|f: SessionFile| row_of_session(f, current@));
    let mut r: Vec<SessionRow> = Vec::new();
    let mut i: usize = 0;
    proof {
        reveal(session_views);
        assert(session_views(r@) =~= all.take(0));
    }
    while i < files.len()
        invariant
            all == files@.map_values(|f: SessionFile| row_of_session(f, current@)),
            i <= files.len(),
            session_views(r@) == all.take(i as int),
        decreases files.len() - i,
    {
        let f = &files[i];
        let is_current = match &f.stem {
            Some(s) => text::same(s.as_str(), current),
            None => false,
        };
        let row = SessionRow {
            path: f.path.clone(),
            id: settings::or_empty(&f.stem),
            headless: f.headless,
            note: settings::copy_opt(&f.note),
            size_kb: f.size / 1024,
            modified: f.modified,
            is_current,
        };
        let ghost before = r@;
        r.push(row);
        proof {
            reveal(session_views);
            assert(row@ == row_of_session(files@[i as int], current@));
            assert(session_views(r@) =~= session_views(before).push(row@));
            assert(all.take(i + 1) =~= all.take(i as int).push(row@));
        }
        i += 1;
    }
    proof {
        assert(all.take(i as int) =~= all);
    }
    r
}

/// The rows of the memories.
pub fn memory_rows(files: &Vec<MemoryFile>) -> (r: Vec<MemoryRow>)
    ensures
        memory_views(r@) == files@.map_values(|f: MemoryFile| row_of_memory(f)),
{
    let ghost all = files@.map_values(|f: MemoryFile| row_of_memory(f));
    let mut r: Vec<MemoryRow> = Vec::new();
    let mut i: usize = 0;
    proof {
        reveal(memory_views);
        assert(memory_views(r@) =~= all.take(0));
    }
    while i < files.len()
        invariant
            all == files@.map_values(|f: MemoryFile| row_of_memory(f)),
            i <= files.len(),
            memory_views(r@) == all.take(i as int),
        decreases files.len() - i,
    {
        let f = &files[i];
        let row = MemoryRow {
            filename: f.filename.clone(),
            name: f.name.clone(),
            desc: f.description.clone(),
            mtype: f.mtype.clone(),
            size_kb: f.size / 1024,
            modified: f.modified,
        };
        let ghost before = r@;
        r.push(row);
        proof {
            reveal(memory_views);
            assert(row@ == row_of_memory(files@[i as int]));
            assert(memory_views(r@) =~= memory_views(before).push(row@));
            assert(all.take(i + 1) =~= all.take(i as int).push(row@));
        }
        i += 1;
    }
    proof {
        assert(all.take(i as int) =~= all);
    }
    r
}

} // verus!
