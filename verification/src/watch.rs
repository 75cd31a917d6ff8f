//! Changes in the watched directory, and which of its files concern the tool.

use crate::text::{chars_of, contains, is_substring, text_of};
use vstd::prelude::*;

verus! {

/// What happened to the paths of a change.
#[derive(Debug, Clone, Copy, PartialEq, Eq)]
pub enum EventKind {
    Created,
    Modified,
    Other,
}

/// A path in the watched directory, with its last component where it has one.
#[derive(Debug, PartialEq, Eq)]
pub struct WatchedPath {
    pub path: String,
    pub file_name: Option<String>,
}

/// One notification of the file system.
#[derive(Debug, PartialEq, Eq)]
pub struct ChangeEvent {
    pub paths: Vec<WatchedPath>,
    pub kind: EventKind,
    pub needs_rescan: bool,
}

/// A watched path, as the contracts speak of it.
pub struct PathView {
    pub path: Seq<char>,
    pub file_name: Option<Seq<char>>,
}

/// A notification, as the contracts speak of it.
pub struct ChangeView {
    pub paths: Seq<PathView>,
    pub kind: EventKind,
    pub needs_rescan: bool,
}

impl View for WatchedPath {
    type V = PathView;

    open spec fn view(&self) -> PathView {
        PathView { path: self.path@, file_name: text_of(self.file_name) }
    }
}

impl View for ChangeEvent {
    type V = ChangeView;

    open spec fn view(&self) -> ChangeView {
        ChangeView {
            paths: self.paths@.map_values(|p: WatchedPath| p@),
            kind: self.kind,
            needs_rescan: self.needs_rescan,
        }
    }
}

/// Whether a file of this name belongs to the vendor's tools: the name holds
/// the vendor's mark, spelled in lowercase.
pub open spec fn is_candidate(file_name: Option<Seq<char>>) -> bool {
    match file_name {
        Some(name) => is_substring("jetbrains"@, name),
        None => false,
    }
}

/// The paths among `paths` whose files belong to the vendor's tools, in order.
pub open spec fn candidates(paths: Seq<PathView>) -> Seq<PathView>
    decreases paths.len(),
{
    if paths.len() == 0 {
        Seq::empty()
    } else if is_candidate(paths.last().file_name) {
        candidates(paths.drop_last()).push(paths.last())
    } else {
        candidates(paths.drop_last())
    }
}

/// Whether a change is one that the tool acts on.
pub open spec fn is_relevant(change: ChangeView) -> bool {
    !change.needs_rescan && (change.kind == EventKind::Created || change.kind
        == EventKind::Modified)
}

impl WatchedPath {
    /// Whether the file belongs to the vendor's tools.
    pub fn is_candidate(&self) -> (b: bool)
        ensures
            b == is_candidate(self@.file_name),
    {
        match &self.file_name {
            Some(name) => {
                let hay = chars_of(name.as_str());
                let mark = chars_of("jetbrains");
                contains(&hay, &mark)
            },
            None => false,
        }
    }
}

impl ChangeEvent {
    /// Whether the change is one that the tool acts on: files were created
    /// or modified, and the notification asks for no rescan.
    pub fn is_relevant(&self) -> (b: bool)
        ensures
            b == is_relevant(self@),
    {
        if self.needs_rescan {
            return false;
        }
        match self.kind {
            EventKind::Created => true,
            EventKind::Modified => true,
            EventKind::Other => false,
        }
    }
}

/// Keeps the paths whose files belong to the vendor's tools.
pub fn keep_candidates(paths: Vec<WatchedPath>) -> (kept: Vec<WatchedPath>)
    ensures
        kept@.map_values(|p: WatchedPath| p@) == candidates(paths@.map_values(|p: WatchedPath| p@)),
{
    let ghost all = paths@.map_values(|p: WatchedPath| p@);
    let mut kept: Vec<WatchedPath> = Vec::new();
    proof {
        assert(kept@.map_values(|p: WatchedPath| p@) =~= candidates(all.take(0)));
    }
    for path in it: paths
        invariant
            it.seq().map_values(|p: WatchedPath| p@) == all,
            kept@.map_values(|p: WatchedPath| p@) == candidates(all.take(it.index() as int)),
    {
        let ghost i = it.index() as int;
        proof {
            assert(all.take(i + 1).drop_last() =~= all.take(i));
            assert(all.take(i + 1).last() == all[i]);
        }
        if path.is_candidate() {
            let ghost before = kept@.map_values(|p: WatchedPath| p@);
            kept.push(path);
            assert(kept@.map_values(|p: WatchedPath| p@) =~= before.push(all[i]));
        }
    }
    assert(all.take(all.len() as int) =~= all);
    kept
}

} // verus!
