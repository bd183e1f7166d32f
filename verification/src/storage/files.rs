//! The files of a workspace's data directory, addressed by relative paths
//! that must stay inside it.

use vstd::prelude::*;
use crate::paths::{is_abs, join, join_path, lemma_join_within, path_within, within};
use crate::text::{chars_of, contains, contains_text, owned};

verus! {

/// Why a relative path was refused.
#[derive(Debug, Clone, PartialEq, Eq)]
pub enum PathError {
    /// The path holds `..`.
    Traversal,
    /// The resolved path lies outside the workspace; holds the relative path.
    Escapes(String),
}

/// Reads and writes files under one workspace directory.
pub struct FileManager {
    workspace_path: String,
}

impl FileManager {
    /// The workspace directory files are resolved against.
    pub closed spec fn root(&self) -> Seq<char> {
        self.workspace_path@
    }

    /// A manager for the files under `workspace_path`.
    pub fn new(workspace_path: &str) -> (r: FileManager)
        ensures
            r.root() == workspace_path@,
    {
        FileManager { workspace_path: owned(workspace_path) }
    }

    /// The workspace directory.
    pub fn workspace_path(&self) -> (r: &str)
        ensures
            r@ == self.root(),
    {
        self.workspace_path.as_str()
    }

    /// Resolves a path against the workspace, as text: a path that holds
    /// `..` anywhere is refused as traversal; any other is joined onto the
    /// workspace directory and accepted exactly when the result lies within
    /// it (a relative path always does; an absolute path must name a place
    /// under the workspace), and refused as escaping otherwise.  Links on
    /// disk are checked afterwards by `check_contained`.
    pub fn safe_resolve(&self, relative_path: &str) -> (r: Result<String, PathError>)
        ensures
            contains_text(relative_path@, ".."@) ==> r == Err::<String, PathError>(
                PathError::Traversal,
            ),
            !contains_text(relative_path@, ".."@) ==> (r is Ok <==> within(
                join_path(self.root(), relative_path@),
                self.root(),
            )),
            r is Ok ==> r->Ok_0@ == join_path(self.root(), relative_path@),
            !contains_text(relative_path@, ".."@) && !within(
                join_path(self.root(), relative_path@),
                self.root(),
            ) ==> (r matches Err(PathError::Escapes(p)) && p@ == relative_path@),
            !contains_text(relative_path@, ".."@) && !is_abs(relative_path@) ==> r is Ok,
    {
        proof {
            if !is_abs(relative_path@) {
                lemma_join_within(self.root(), relative_path@);
            }
        }
        let v = chars_of(relative_path);
        let dots = chars_of("..");
        if contains(&v, &dots) {
            return Err(PathError::Traversal);
        }
        let full = join(self.workspace_path.as_str(), relative_path);
        if !path_within(full.as_str(), self.workspace_path.as_str()) {
            return Err(PathError::Escapes(owned(relative_path)));
        }
        Ok(full)
    }

    /// Accepts the resolved `full_path` of `relative_path` when the path it
    /// names on disk, `check_path` (made canonical), starts with the
    /// canonical workspace directory; refuses it otherwise.
    pub fn check_contained(
        &self,
        relative_path: &str,
        full_path: String,
        check_path: &str,
        canonical_ws: &str,
    ) -> (r: Result<String, PathError>)
        ensures
            within(check_path@, canonical_ws@) ==> r is Ok && r->Ok_0@ == full_path@,
            !within(check_path@, canonical_ws@) ==> (r matches Err(PathError::Escapes(p))
                && p@ == relative_path@),
    {
        if path_within(check_path, canonical_ws) {
            Ok(full_path)
        } else {
            Err(PathError::Escapes(owned(relative_path)))
        }
    }

    /// The directories every workspace has: `docs`, `notes` and `projects`.
    pub fn content_dirs(&self) -> (r: (String, String, String))
        ensures
            r.0@ == join_path(self.root(), "docs"@),
            r.1@ == join_path(self.root(), "notes"@),
            r.2@ == join_path(self.root(), "projects"@),
    {
        (
            join(self.workspace_path.as_str(), "docs"),
            join(self.workspace_path.as_str(), "notes"),
            join(self.workspace_path.as_str(), "projects"),
        )
    }
}

} // verus!
