//! Filter settings: which paths are ignored, and how long the engine rests
//! after an accepted event.

use crate::text::{
    base_name, base_name_of, contains_text, has_substring, last_position_absent, occurs_at,
    parent_dir, parent_dir_of, texts,
};
use vstd::prelude::*;

verus! {

/// The cooldown of a configuration that names none, in milliseconds.
pub const DEFAULT_COOLDOWN_MS: u64 = 650;

/// The settings that decide whether an event is acted on. An ignore list
/// that the configuration does not give is empty.
#[derive(Clone, Debug, PartialEq, Eq)]
pub struct FilterSettings {
    /// Base names that are never acted on.
    pub ignored_files: Vec<String>,
    /// A path whose parent directory contains one of these is never acted on.
    pub ignored_dirs: Vec<String>,
    /// The least time, in milliseconds, between two accepted events.
    pub cooldown_ms: u64,
    /// Whether the terminal is cleared before the commands run.
    pub clear_terminal: bool,
}

/// `FilterSettings` as mathematics.
pub struct FilterModel {
    pub ignored_files: Seq<Seq<char>>,
    pub ignored_dirs: Seq<Seq<char>>,
    pub cooldown_ms: int,
    pub clear_terminal: bool,
}

impl View for FilterSettings {
    type V = FilterModel;

    open spec fn view(&self) -> FilterModel {
        FilterModel {
            ignored_files: texts(self.ignored_files@),
            ignored_dirs: texts(self.ignored_dirs@),
            cooldown_ms: self.cooldown_ms as int,
            clear_terminal: self.clear_terminal,
        }
    }
}

/// The settings of an empty configuration.
pub open spec fn default_settings() -> FilterModel {
    FilterModel {
        ignored_files: Seq::empty(),
        ignored_dirs: Seq::empty(),
        cooldown_ms: DEFAULT_COOLDOWN_MS as int,
        clear_terminal: false,
    }
}

/// The base name of `path` is one of the ignored files.
pub open spec fn ignored_file(settings: FilterModel, path: Seq<char>) -> bool {
    exists|k: int|
        0 <= k < settings.ignored_files.len() && #[trigger] settings.ignored_files[k] == base_name(
            path,
        )
}

/// The parent directory of `path` contains one of the ignored directories.
pub open spec fn ignored_dir(settings: FilterModel, path: Seq<char>) -> bool {
    exists|k: int|
        0 <= k < settings.ignored_dirs.len() && contains_text(
            parent_dir(path),
            #[trigger] settings.ignored_dirs[k],
        )
}

/// Less than the cooldown has passed at `now` since the event accepted at
/// `last`.
pub open spec fn cooling_down(settings: FilterModel, last: int, now: int) -> bool {
    now - last < settings.cooldown_ms
}

/// A write to `path` at `now` is acted on, the last accepted event having
/// come at `last`.
pub open spec fn accepts(settings: FilterModel, last: int, path: Seq<char>, now: int) -> bool {
    &&& !ignored_file(settings, path)
    &&& !ignored_dir(settings, path)
    &&& !cooling_down(settings, last, now)
}

impl Default for FilterSettings {
    fn default() -> (r: FilterSettings)
        ensures
            r@ == default_settings(),
    {
        let r = FilterSettings {
            ignored_files: Vec::new(),
            ignored_dirs: Vec::new(),
            cooldown_ms: DEFAULT_COOLDOWN_MS,
            clear_terminal: false,
        };
        assert(r@.ignored_files =~= Seq::empty());
        assert(r@.ignored_dirs =~= Seq::empty());
        r
    }
}

impl FilterSettings {
    /// Whether the base name of `path` is an ignored file.
    pub fn ignores_file(&self, path: &str) -> (r: bool)
        ensures
            r == ignored_file(self@, path@),
    {
        let base = base_name_of(path);
        let mut k: usize = 0;
        while k < self.ignored_files.len()
            invariant
                k <= self.ignored_files.len(),
                base@ == base_name(path@),
                forall|j: int| 0 <= j < k ==> #[trigger] self@.ignored_files[j] != base@,
            decreases self.ignored_files.len() - k,
        {
            if self.ignored_files[k] == base {
                assert(self@.ignored_files[k as int] == base@);
                return true;
            }
            k += 1;
        }
        false
    }

    /// Whether the parent directory of `path` contains an ignored directory.
    pub fn ignores_dir(&self, path: &str) -> (r: bool)
        ensures
            r == ignored_dir(self@, path@),
    {
        let parent = parent_dir_of(path);
        let mut k: usize = 0;
        while k < self.ignored_dirs.len()
            invariant
                k <= self.ignored_dirs.len(),
                parent@ == parent_dir(path@),
                forall|j: int|
                    0 <= j < k ==> !contains_text(parent@, #[trigger] self@.ignored_dirs[j]),
            decreases self.ignored_dirs.len() - k,
        {
            if has_substring(parent.as_str(), self.ignored_dirs[k].as_str()) {
                assert(contains_text(parent@, self@.ignored_dirs[k as int]));
                return true;
            }
            k += 1;
        }
        false
    }

    /// Whether the cooldown that began at `last` still runs at `now`.
    pub fn cooling_down(&self, last: u64, now: u64) -> (r: bool)
        ensures
            r == cooling_down(self@, last as int, now as int),
    {
        now < last || now - last < self.cooldown_ms
    }

    /// Whether a write to `path` at `now` is acted on, the last accepted event
    /// having come at `last`.
    pub fn accepts(&self, last: u64, path: &str, now: u64) -> (r: bool)
        ensures
            r == accepts(self@, last as int, path@, now as int),
    {
        !self.ignores_file(path) && !self.ignores_dir(path) && !self.cooling_down(last, now)
    }
}

/// A path whose base name is an ignored file is never accepted, whatever the
/// clock and the last accepted event.
pub proof fn ignored_file_is_never_accepted(
    settings: FilterModel,
    path: Seq<char>,
    last: int,
    now: int,
)
    requires
        settings.ignored_files.contains(base_name(path)),
    ensures
        !accepts(settings, last, path, now),
{
    let k = choose|k: int|
        0 <= k < settings.ignored_files.len() && settings.ignored_files[k] == base_name(path);
    assert(settings.ignored_files[k] == base_name(path));
}

/// A path whose parent directory contains an ignored directory as a
/// substring is never accepted.
pub proof fn ignored_dir_is_never_accepted(
    settings: FilterModel,
    path: Seq<char>,
    k: int,
    last: int,
    now: int,
)
    requires
        0 <= k < settings.ignored_dirs.len(),
        contains_text(parent_dir(path), settings.ignored_dirs[k]),
    ensures
        !accepts(settings, last, path, now),
{
}

/// A path without `/` has an empty parent directory, and that contains an
/// ignored directory only if the ignored directory is empty.
pub proof fn bare_name_is_in_no_named_dir(path: Seq<char>, needle: Seq<char>)
    requires
        !path.contains('/'),
    ensures
        parent_dir(path) == Seq::<char>::empty(),
        contains_text(parent_dir(path), needle) <==> needle.len() == 0,
{
    last_position_absent(path, '/');
    if needle.len() == 0 {
        assert(Seq::<char>::empty().subrange(0, 0) =~= needle);
        assert(occurs_at(Seq::<char>::empty(), needle, 0));
    }
}

} // verus!
