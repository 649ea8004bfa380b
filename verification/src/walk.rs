//! The files below an input path: which directory to list next, and which
//! of the entries found are files to load.
//!
//! The caller reads the directories. The walk tells it which one to read,
//! takes the entries, queues the directories among them and keeps the
//! files; entries that are neither are passed over.

use vstd::prelude::*;
use vstd::string::StringExecFns;
use crate::text::texts;

verus! {

/// What stands at a path.
#[derive(Debug, Clone, Copy, PartialEq, Eq, Structural)]
pub enum EntryKind {
    Directory,
    File,
    /// Something else, such as a socket or a broken link.
    Other,
    /// Nothing.
    Missing,
}

/// One entry of a directory, or the input path itself.
#[derive(Debug, Clone)]
pub struct Entry {
    pub path: String,
    pub kind: EntryKind,
}

/// Why a walk gave no list of files.
#[derive(Debug, Clone)]
pub enum WalkError {
    /// Nothing stands at the input path.
    Missing(String),
    /// A directory could not be read; the text says why.
    Unreadable(String),
    /// Directories are still to be listed.
    Unfinished,
}

/// What the caller is to do next.
#[derive(Debug, Clone)]
pub enum WalkAction {
    /// Read this directory and report its entries.
    List(String),
    /// Nothing is left to read: ask for the files.
    Finish,
}

/// The model of a walk error.
pub enum WalkFault {
    Missing(Seq<char>),
    Unreadable(Seq<char>),
    Unfinished,
}

/// The model of an action.
pub enum WalkActionView {
    List(Seq<char>),
    Finish,
}

impl View for WalkError {
    type V = WalkFault;

    open spec fn view(&self) -> WalkFault {
        match *self {
            WalkError::Missing(path) => WalkFault::Missing(path@),
            WalkError::Unreadable(text) => WalkFault::Unreadable(text@),
            WalkError::Unfinished => WalkFault::Unfinished,
        }
    }
}

impl View for WalkAction {
    type V = WalkActionView;

    open spec fn view(&self) -> WalkActionView {
        match *self {
            WalkAction::List(path) => WalkActionView::List(path@),
            WalkAction::Finish => WalkActionView::Finish,
        }
    }
}

/// The paths of the entries of one kind, in the order of the entries.
pub open spec fn paths_of(entries: Seq<Entry>, kind: EntryKind) -> Seq<Seq<char>>
    decreases entries.len(),
{
    if entries.len() == 0 {
        Seq::empty()
    } else if entries.last().kind == kind {
        paths_of(entries.drop_last(), kind).push(entries.last().path@)
    } else {
        paths_of(entries.drop_last(), kind)
    }
}

/// The model of a walk.
pub struct WalkModel {
    /// The directories that are still to be listed; the last one is next.
    pub pending: Seq<Seq<char>>,
    /// The files found so far.
    pub files: Seq<Seq<char>>,
    /// What ended the walk early, if anything did.
    pub failure: Option<WalkFault>,
}

impl WalkModel {
    /// The walk from an input path: a file is the only file of its walk, a
    /// directory is the first to be listed, and a path at which nothing
    /// stands fails the walk.
    pub open spec fn start(path: Seq<char>, kind: EntryKind) -> WalkModel {
        WalkModel {
            pending: if kind is Directory {
                seq![path]
            } else {
                Seq::empty()
            },
            files: if kind is File {
                seq![path]
            } else {
                Seq::empty()
            },
            failure: if kind is Missing {
                Some(WalkFault::Missing(path))
            } else {
                None
            },
        }
    }

    /// What the walk asks for next, and the walk after that.
    pub open spec fn next_action(self) -> (WalkModel, WalkActionView) {
        if self.failure is None && self.pending.len() > 0 {
            (
                WalkModel { pending: self.pending.drop_last(), ..self },
                WalkActionView::List(self.pending.last()),
            )
        } else {
            (self, WalkActionView::Finish)
        }
    }

    /// The walk after a directory was listed: its files are kept, its
    /// directories are queued, anything else is passed over.
    pub open spec fn listed(self, entries: Seq<Entry>) -> WalkModel {
        WalkModel {
            pending: self.pending + paths_of(entries, EntryKind::Directory),
            files: self.files + paths_of(entries, EntryKind::File),
            ..self
        }
    }

    /// The walk after a directory could not be read: the first such
    /// failure is kept.
    pub open spec fn unreadable(self, text: Seq<char>) -> WalkModel {
        if self.failure is Some {
            self
        } else {
            WalkModel { failure: Some(WalkFault::Unreadable(text)), ..self }
        }
    }

    /// The files of the walk, or why there is no list of them.
    pub open spec fn outcome(self) -> Result<Seq<Seq<char>>, WalkFault> {
        match self.failure {
            Some(fault) => Err(fault),
            None => if self.pending.len() > 0 {
                Err(WalkFault::Unfinished)
            } else {
                Ok(self.files)
            },
        }
    }
}

/// The walk through the directories below an input path.
pub struct Walk {
    pending: Vec<String>,
    files: Vec<String>,
    failure: Option<WalkError>,
}

impl View for Walk {
    type V = WalkModel;

    closed spec fn view(&self) -> WalkModel {
        WalkModel {
            pending: texts(self.pending@),
            files: texts(self.files@),
            failure: match self.failure {
                Some(e) => Some(e@),
                None => None,
            },
        }
    }
}

impl Walk {
    /// The walk from an input path and what stands there.
    pub fn new(path: &str, kind: EntryKind) -> (walk: Walk)
        ensures
            walk@ == WalkModel::start(path@, kind),
    {
        let mut pending: Vec<String> = Vec::new();
        let mut files: Vec<String> = Vec::new();
        let mut failure: Option<WalkError> = None;
        match kind {
            EntryKind::Directory => {
                pending.push(String::from_str(path));
            },
            EntryKind::File => {
                files.push(String::from_str(path));
            },
            EntryKind::Other => {},
            EntryKind::Missing => {
                failure = Some(WalkError::Missing(String::from_str(path)));
            },
        }
        let walk = Walk { pending, files, failure };
        assert(walk@.pending =~= WalkModel::start(path@, kind).pending);
        assert(walk@.files =~= WalkModel::start(path@, kind).files);
        walk
    }

    /// Says which directory to read next, if any.
    pub fn next_action(&mut self) -> (action: WalkAction)
        ensures
            (final(self)@, action@) == old(self)@.next_action(),
    {
        if self.failure.is_none() && self.pending.len() > 0 {
            let ghost before = texts(self.pending@);
            let next = self.pending.pop();
            assert(texts(self.pending@) =~= before.drop_last());
            match next {
                Some(path) => WalkAction::List(path),
                None => WalkAction::Finish,
            }
        } else {
            WalkAction::Finish
        }
    }

    /// Takes the entries of a directory that was read.
    pub fn listed(&mut self, entries: &Vec<Entry>)
        ensures
            final(self)@ == old(self)@.listed(entries@),
    {
        let ghost start = self@;
        let mut i: usize = 0;
        while i < entries.len()
            invariant
                i <= entries.len(),
                self@ == start.listed(entries@.take(i as int)),
            decreases entries.len() - i,
        {
            proof {
                assert(entries@.take(i + 1).drop_last() == entries@.take(i as int));
                assert(entries@.take(i + 1).last() == entries[i as int]);
            }
            let ghost pending = texts(self.pending@);
            let ghost files = texts(self.files@);
            match entries[i].kind {
                EntryKind::Directory => {
                    self.pending.push(entries[i].path.clone());
                    assert(texts(self.pending@) =~= pending.push(entries[i as int].path@));
                },
                EntryKind::File => {
                    self.files.push(entries[i].path.clone());
                    assert(texts(self.files@) =~= files.push(entries[i as int].path@));
                },
                _ => {},
            }
            proof {
                let done = entries@.take(i + 1);
                assert(self@.pending =~= start.pending + paths_of(done, EntryKind::Directory));
                assert(self@.files =~= start.files + paths_of(done, EntryKind::File));
            }
            i += 1;
        }
        proof {
            assert(entries@.take(i as int) == entries@);
        }
    }

    /// Takes the failure to read a directory: the walk ends.
    pub fn unreadable(&mut self, text: String)
        ensures
            final(self)@ == old(self)@.unreadable(text@),
    {
        if self.failure.is_none() {
            self.failure = Some(WalkError::Unreadable(text));
        }
    }

    /// The files that were found, in the order in which they were found.
    /// There is no list where nothing stands at the input path, where a
    /// directory could not be read, and while directories are still to be
    /// listed.
    pub fn into_paths(self) -> (res: Result<Vec<String>, WalkError>)
        ensures
            match res {
                Ok(paths) => self@.outcome() == Ok::<_, WalkFault>(texts(paths@)),
                Err(e) => self@.outcome() == Err::<Seq<Seq<char>>, _>(e@),
            },
    {
        match self.failure {
            Some(e) => Err(e),
            None => {
                if self.pending.len() > 0 {
                    Err(WalkError::Unfinished)
                } else {
                    Ok(self.files)
                }
            },
        }
    }
}

} // verus!
