//! Rules: which commands belong to which match key, and how the rules that
//! match a path become batches of commands.

use crate::error::ConfigError;
use crate::pattern::{compiles, matches_somewhere, pattern_matches, pattern_valid};
use crate::text::{
    dotted_name_has_its_extension, extension, extension_of, replace_all, replace_token, texts,
};
use vstd::prelude::*;

verus! {

/// How a match key is read.
#[derive(Clone, Copy, Debug, PartialEq, Eq, Structural)]
pub enum MatchMode {
    /// The key is a file extension, compared for equality.
    Extension,
    /// The key is a regular expression, searched for in the whole path.
    Pattern,
}

/// What to run for a match key.
#[derive(Clone, Debug, PartialEq, Eq)]
pub enum Rule {
    /// Commands that run where the engine runs.
    Simple { commands: Vec<String> },
    /// Commands that run in `working_dir`, where one is given.
    Scoped { commands: Vec<String>, working_dir: Option<String> },
}

/// A match key and its rule.
#[derive(Clone, Debug, PartialEq, Eq)]
pub struct RuleEntry {
    pub key: String,
    pub rule: Rule,
}

/// The rules of a configuration, in the order of the configuration. Every
/// key is read by `mode`.
#[derive(Clone, Debug, PartialEq, Eq)]
pub struct RuleSet {
    pub mode: MatchMode,
    pub entries: Vec<RuleEntry>,
}

/// The commands of one matching rule, made ready for a path, and where they
/// run.
#[derive(Clone, Debug, PartialEq, Eq)]
pub struct Batch {
    pub commands: Vec<String>,
    pub working_dir: Option<String>,
}

/// `Rule` as mathematics.
pub enum RuleModel {
    Simple { commands: Seq<Seq<char>> },
    Scoped { commands: Seq<Seq<char>>, working_dir: Option<Seq<char>> },
}

/// `RuleEntry` as mathematics.
pub struct EntryModel {
    pub key: Seq<char>,
    pub rule: RuleModel,
}

/// `RuleSet` as mathematics.
pub struct RuleSetModel {
    pub mode: MatchMode,
    pub entries: Seq<EntryModel>,
}

/// `Batch` as mathematics.
pub struct BatchModel {
    pub commands: Seq<Seq<char>>,
    pub working_dir: Option<Seq<char>>,
}

/// The view of an optional string.
pub open spec fn optional_text(o: Option<String>) -> Option<Seq<char>> {
    match o {
        Some(s) => Some(s@),
        None => None,
    }
}

impl RuleModel {
    /// The command templates of the rule.
    pub open spec fn commands(self) -> Seq<Seq<char>> {
        match self {
            RuleModel::Simple { commands } => commands,
            RuleModel::Scoped { commands, .. } => commands,
        }
    }

    /// Where the rule's commands run; `None` is where the engine runs.
    pub open spec fn working_dir(self) -> Option<Seq<char>> {
        match self {
            RuleModel::Simple { .. } => None,
            RuleModel::Scoped { working_dir, .. } => working_dir,
        }
    }
}

impl View for Rule {
    type V = RuleModel;

    open spec fn view(&self) -> RuleModel {
        match *self {
            Rule::Simple { commands } => RuleModel::Simple { commands: texts(commands@) },
            Rule::Scoped { commands, working_dir } => RuleModel::Scoped {
                commands: texts(commands@),
                working_dir: optional_text(working_dir),
            },
        }
    }
}

impl View for RuleEntry {
    type V = EntryModel;

    open spec fn view(&self) -> EntryModel {
        EntryModel { key: self.key@, rule: self.rule@ }
    }
}

/// The views of a list of entries.
pub open spec fn entry_models(entries: Seq<RuleEntry>) -> Seq<EntryModel> {
    Seq::new(entries.len(), |i: int| entries[i]@)
}

impl View for RuleSet {
    type V = RuleSetModel;

    open spec fn view(&self) -> RuleSetModel {
        RuleSetModel { mode: self.mode, entries: entry_models(self.entries@) }
    }
}

impl View for Batch {
    type V = BatchModel;

    open spec fn view(&self) -> BatchModel {
        BatchModel {
            commands: texts(self.commands@),
            working_dir: optional_text(self.working_dir),
        }
    }
}

/// The views of a list of batches.
pub open spec fn batch_models(batches: Seq<Batch>) -> Seq<BatchModel> {
    Seq::new(batches.len(), |i: int| batches[i]@)
}

/// The token that stands for the path of the written file in a command
/// template.
pub open spec fn placeholder() -> Seq<char> {
    "%sniff_file_name%"@
}

/// A command template with every placeholder replaced by `path`.
pub open spec fn resolved_command(template: Seq<char>, path: Seq<char>) -> Seq<char> {
    replace_all(template, placeholder(), path)
}

/// The batch that `rule` gives for `path`: its commands, each resolved, in
/// order, and its working directory.
pub open spec fn batch_of(rule: RuleModel, path: Seq<char>) -> BatchModel {
    BatchModel {
        commands: Seq::new(
            rule.commands().len(),
            |i: int| resolved_command(rule.commands()[i], path),
        ),
        working_dir: rule.working_dir(),
    }
}

/// Whether entry `i` is marked in `hits`; an entry that `hits` does not reach
/// is not.
pub open spec fn hit(hits: Seq<bool>, i: int) -> bool {
    0 <= i < hits.len() && hits[i]
}

/// The batches of the first `n` entries that are marked in `hits`, in the
/// order of the entries.
pub open spec fn batches_upto(
    entries: Seq<EntryModel>,
    hits: Seq<bool>,
    path: Seq<char>,
    n: int,
) -> Seq<BatchModel>
    decreases n,
{
    if n <= 0 {
        Seq::empty()
    } else if hit(hits, n - 1) {
        batches_upto(entries, hits, path, n - 1).push(batch_of(entries[n - 1].rule, path))
    } else {
        batches_upto(entries, hits, path, n - 1)
    }
}

/// The batches of all entries that are marked in `hits`.
pub open spec fn batches_for(entries: Seq<EntryModel>, hits: Seq<bool>, path: Seq<char>) -> Seq<
    BatchModel,
> {
    batches_upto(entries, hits, path, entries.len() as int)
}

/// How many of the first `n` entries are marked in `hits`.
pub open spec fn hits_before(hits: Seq<bool>, n: int) -> int
    decreases n,
{
    if n <= 0 {
        0
    } else if hit(hits, n - 1) {
        hits_before(hits, n - 1) + 1
    } else {
        hits_before(hits, n - 1)
    }
}

/// Whether `key`, read by `mode`, matches `path`: as an extension, if it is
/// the extension of the path; as a pattern, if it matches somewhere in the
/// path.
pub open spec fn key_matches(mode: MatchMode, key: Seq<char>, path: Seq<char>) -> bool {
    match mode {
        MatchMode::Extension => extension(path) == Some(key),
        MatchMode::Pattern => matches_somewhere(key, path),
    }
}

/// Which entries of `rules` match `path`, entry by entry.
pub open spec fn hits_for(rules: RuleSetModel, path: Seq<char>) -> Seq<bool> {
    Seq::new(rules.entries.len(), |i: int| key_matches(rules.mode, rules.entries[i].key, path))
}

/// The batches that `rules` give for `path`: those of every entry whose key
/// matches, in the order of the entries.
pub open spec fn resolved(rules: RuleSetModel, path: Seq<char>) -> Seq<BatchModel> {
    batches_for(rules.entries, hits_for(rules, path), path)
}

/// In pattern mode, every key compiles.
pub open spec fn patterns_valid(rules: RuleSetModel) -> bool {
    rules.mode is Pattern ==> forall|i: int|
        0 <= i < rules.entries.len() ==> pattern_valid(#[trigger] rules.entries[i].key)
}

/// The command `template` made ready for `path`.
pub fn resolve_command(template: &str, path: &str) -> (r: String)
    ensures
        r@ == resolved_command(template@, path@),
{
    replace_token(template, "%sniff_file_name%", path)
}

/// A copy of an optional string.
pub fn copy_optional(o: &Option<String>) -> (r: Option<String>)
    ensures
        r == *o,
{
    match o {
        Some(s) => Some(s.clone()),
        None => None,
    }
}

impl Rule {
    /// The command templates of the rule.
    pub fn commands(&self) -> (r: &Vec<String>)
        ensures
            texts(r@) == self@.commands(),
    {
        match self {
            Rule::Simple { commands } => commands,
            Rule::Scoped { commands, .. } => commands,
        }
    }

    /// Where the rule's commands run.
    pub fn working_dir(&self) -> (r: Option<String>)
        ensures
            optional_text(r) == self@.working_dir(),
    {
        match self {
            Rule::Simple { .. } => None,
            Rule::Scoped { working_dir, .. } => copy_optional(working_dir),
        }
    }

    /// The batch that the rule gives for `path`.
    pub fn batch(&self, path: &str) -> (r: Batch)
        ensures
            r@ == batch_of(self@, path@),
    {
        let templates = self.commands();
        let mut commands: Vec<String> = Vec::new();
        let mut i: usize = 0;
        while i < templates.len()
            invariant
                i <= templates.len(),
                commands.len() == i,
                texts(templates@) == self@.commands(),
                forall|j: int|
                    0 <= j < i ==> (#[trigger] commands[j])@ == resolved_command(
                        templates[j]@,
                        path@,
                    ),
            decreases templates.len() - i,
        {
            commands.push(resolve_command(templates[i].as_str(), path));
            i += 1;
        }
        let r = Batch { commands, working_dir: self.working_dir() };
        assert(r@.commands =~= batch_of(self@, path@).commands) by {
            assert forall|j: int| 0 <= j < templates.len() implies #[trigger] r@.commands[j]
                == resolved_command(self@.commands()[j], path@) by {
                assert(texts(templates@)[j] == templates[j]@);
            }
        }
        r
    }
}

impl RuleSet {
    /// Which entries have the extension of `path` as their key.
    fn extension_hits(&self, path: &str) -> (hits: Vec<bool>)
        ensures
            hits.len() == self.entries.len(),
            forall|i: int|
                0 <= i < hits.len() ==> #[trigger] hits[i] == key_matches(
                    MatchMode::Extension,
                    self.entries[i].key@,
                    path@,
                ),
    {
        let found = extension_of(path);
        let mut hits: Vec<bool> = Vec::new();
        let mut i: usize = 0;
        while i < self.entries.len()
            invariant
                i <= self.entries.len(),
                hits.len() == i,
                found is Some == extension(path@) is Some,
                found is Some ==> found.unwrap()@ == extension(path@).unwrap(),
                forall|j: int|
                    0 <= j < i ==> #[trigger] hits[j] == key_matches(
                        MatchMode::Extension,
                        self.entries[j].key@,
                        path@,
                    ),
            decreases self.entries.len() - i,
        {
            let is_hit = match &found {
                Some(ext) => self.entries[i].key == *ext,
                None => false,
            };
            hits.push(is_hit);
            i += 1;
        }
        hits
    }

    /// Which entries have a key that, as a pattern, matches in `path`.
    fn pattern_hits(&self, path: &str) -> (hits: Vec<bool>)
        ensures
            hits.len() == self.entries.len(),
            forall|i: int|
                0 <= i < hits.len() ==> #[trigger] hits[i] == key_matches(
                    MatchMode::Pattern,
                    self.entries[i].key@,
                    path@,
                ),
    {
        let mut hits: Vec<bool> = Vec::new();
        let mut i: usize = 0;
        while i < self.entries.len()
            invariant
                i <= self.entries.len(),
                hits.len() == i,
                forall|j: int|
                    0 <= j < i ==> #[trigger] hits[j] == key_matches(
                        MatchMode::Pattern,
                        self.entries[j].key@,
                        path@,
                    ),
            decreases self.entries.len() - i,
        {
            hits.push(pattern_matches(self.entries[i].key.as_str(), path));
            i += 1;
        }
        hits
    }

    /// Which entries match `path`, entry by entry.
    pub fn hits(&self, path: &str) -> (hits: Vec<bool>)
        ensures
            hits@ == hits_for(self@, path@),
    {
        let hits = match self.mode {
            MatchMode::Extension => self.extension_hits(path),
            MatchMode::Pattern => self.pattern_hits(path),
        };
        assert(hits@ =~= hits_for(self@, path@));
        hits
    }

    /// Checks that every key can be read by the mode: in pattern mode, that
    /// it compiles. The error names the first rule whose key does not.
    pub fn check_keys(&self) -> (r: Result<(), ConfigError>)
        ensures
            r is Ok <==> patterns_valid(self@),
            r matches Err(e) ==> {
                &&& e matches ConfigError::Pattern { rule }
                &&& rule < self.entries.len()
                &&& !pattern_valid(self.entries[rule as int].key@)
                &&& forall|j: int| 0 <= j < rule ==> pattern_valid(#[trigger] self.entries[j].key@)
            },
    {
        match self.mode {
            MatchMode::Extension => Ok(()),
            MatchMode::Pattern => {
                let mut i: usize = 0;
                while i < self.entries.len()
                    invariant
                        i <= self.entries.len(),
                        self.mode is Pattern,
                        forall|j: int|
                            0 <= j < i ==> pattern_valid(#[trigger] self.entries[j].key@),
                    decreases self.entries.len() - i,
                {
                    if !compiles(self.entries[i].key.as_str()) {
                        assert(!pattern_valid(self@.entries[i as int].key));
                        return Err(ConfigError::Pattern { rule: i });
                    }
                    i += 1;
                }
                assert forall|j: int| 0 <= j < self@.entries.len() implies pattern_valid(
                    #[trigger] self@.entries[j].key,
                ) by {
                    assert(pattern_valid(self.entries[j].key@));
                }
                Ok(())
            },
        }
    }

    /// The batches of the entries that are marked in `hits`, made ready for
    /// `path`, in the order of the entries. An entry that `hits` does not
    /// reach is not marked.
    pub fn batches(&self, hits: &Vec<bool>, path: &str) -> (batches: Vec<Batch>)
        ensures
            batch_models(batches@) == batches_for(self@.entries, hits@, path@),
    {
        let mut batches: Vec<Batch> = Vec::new();
        let mut i: usize = 0;
        while i < self.entries.len()
            invariant
                i <= self.entries.len(),
                batch_models(batches@) == batches_upto(self@.entries, hits@, path@, i as int),
            decreases self.entries.len() - i,
        {
            if i < hits.len() && hits[i] {
                let ghost before = batch_models(batches@);
                batches.push(self.entries[i].rule.batch(path));
                assert(batch_models(batches@) =~= before.push(
                    batch_of(self@.entries[i as int].rule, path@),
                ));
            }
            i += 1;
        }
        batches
    }

    /// The batches that the rules give for `path`: those of every entry
    /// whose key matches, in the order of the entries.
    pub fn resolve(&self, path: &str) -> (batches: Vec<Batch>)
        ensures
            batch_models(batches@) == resolved(self@, path@),
    {
        let hits = self.hits(path);
        self.batches(&hits, path)
    }
}

/// Every entry that is marked fires: its batch stands in the result, at the
/// place that the number of marked entries before it gives. So the batches
/// come in the order of the entries, and an entry marked later comes later.
pub proof fn marked_entries_fire_in_order(
    entries: Seq<EntryModel>,
    hits: Seq<bool>,
    path: Seq<char>,
    i: int,
)
    requires
        0 <= i < entries.len(),
        hit(hits, i),
    ensures
        0 <= hits_before(hits, i) < batches_for(entries, hits, path).len(),
        batches_for(entries, hits, path)[hits_before(hits, i)] == batch_of(entries[i].rule, path),
        forall|j: int| i < j < entries.len() && hit(hits, j) ==> hits_before(hits, i) < hits_before(
            hits,
            j,
        ),
{
    batches_upto_shape(entries, hits, path, entries.len() as int, i);
    assert forall|j: int| i < j < entries.len() && hit(hits, j) implies hits_before(hits, i)
        < hits_before(hits, j) by {
        hits_before_grows(hits, i + 1, j);
    }
}

/// Nothing but the marked entries fires: there are as many batches as marked
/// entries, and none where no entry is marked.
pub proof fn only_marked_entries_fire(entries: Seq<EntryModel>, hits: Seq<bool>, path: Seq<char>)
    ensures
        batches_for(entries, hits, path).len() == hits_before(hits, entries.len() as int),
        (forall|i: int| 0 <= i < entries.len() ==> !hit(hits, i)) ==> batches_for(
            entries,
            hits,
            path,
        ).len() == 0,
{
    batches_upto_len(entries, hits, path, entries.len() as int);
    if forall|i: int| 0 <= i < entries.len() ==> !hit(hits, i) {
        no_hits_before(hits, entries.len() as int);
    }
}

/// Every rule whose key matches the path fires, whether none, one or many
/// match: its batch stands in the result at the place that the number of
/// matching rules before it gives, so the batches come in the order of the
/// configuration. There are as many batches as matching rules.
pub proof fn every_matching_rule_fires(rules: RuleSetModel, path: Seq<char>, i: int)
    requires
        0 <= i < rules.entries.len(),
        key_matches(rules.mode, rules.entries[i].key, path),
    ensures
        0 <= hits_before(hits_for(rules, path), i) < resolved(rules, path).len(),
        resolved(rules, path)[hits_before(hits_for(rules, path), i)] == batch_of(
            rules.entries[i].rule,
            path,
        ),
        forall|j: int|
            i < j < rules.entries.len() && key_matches(rules.mode, rules.entries[j].key, path)
                ==> hits_before(hits_for(rules, path), i) < hits_before(hits_for(rules, path), j),
        resolved(rules, path).len() == hits_before(
            hits_for(rules, path),
            rules.entries.len() as int,
        ),
{
    let hits = hits_for(rules, path);
    marked_entries_fire_in_order(rules.entries, hits, path, i);
    only_marked_entries_fire(rules.entries, hits, path);
    assert forall|j: int|
        i < j < rules.entries.len() && key_matches(
            rules.mode,
            rules.entries[j].key,
            path,
        ) implies hits_before(hits, i) < hits_before(hits, j) by {
        assert(hit(hits, j));
    }
}

/// In extension mode, a path that ends in a file name of the form stem, dot,
/// extension matches the key that is its extension, and no other key.
/// `front` is empty or ends in `/`.
pub proof fn extension_matches_only_its_key(
    front: Seq<char>,
    stem: Seq<char>,
    ext: Seq<char>,
    key: Seq<char>,
)
    requires
        front.len() == 0 || front.last() == '/',
        !stem.contains('/'),
        !ext.contains('/'),
        !ext.contains('.'),
    ensures
        key_matches(MatchMode::Extension, key, front + stem + seq!['.'] + ext) <==> key == ext,
{
    dotted_name_has_its_extension(front, stem, ext);
}

/// There are as many batches as marked entries.
proof fn batches_upto_len(entries: Seq<EntryModel>, hits: Seq<bool>, path: Seq<char>, n: int)
    ensures
        batches_upto(entries, hits, path, n).len() == hits_before(hits, n),
        hits_before(hits, n) >= 0,
    decreases n,
{
    if n > 0 {
        batches_upto_len(entries, hits, path, n - 1);
    }
}

/// Where no entry is marked, none is counted.
proof fn no_hits_before(hits: Seq<bool>, n: int)
    requires
        forall|i: int| 0 <= i < n ==> !hit(hits, i),
    ensures
        hits_before(hits, n) == 0,
    decreases n,
{
    if n > 0 {
        no_hits_before(hits, n - 1);
    }
}

/// A longer prefix holds no fewer marked entries.
proof fn hits_before_grows(hits: Seq<bool>, a: int, b: int)
    requires
        a <= b,
    ensures
        hits_before(hits, a) <= hits_before(hits, b),
    decreases b - a,
{
    if a < b {
        hits_before_grows(hits, a, b - 1);
    }
}

/// Where the batch of the marked entry `i` stands among the batches of the
/// first `n` entries.
proof fn batches_upto_shape(
    entries: Seq<EntryModel>,
    hits: Seq<bool>,
    path: Seq<char>,
    n: int,
    i: int,
)
    requires
        0 <= i < n,
        hit(hits, i),
    ensures
        0 <= hits_before(hits, i) < batches_upto(entries, hits, path, n).len(),
        batches_upto(entries, hits, path, n)[hits_before(hits, i)] == batch_of(
            entries[i].rule,
            path,
        ),
    decreases n,
{
    batches_upto_len(entries, hits, path, n - 1);
    batches_upto_len(entries, hits, path, i);
    if i < n - 1 {
        batches_upto_shape(entries, hits, path, n - 1, i);
    }
}

} // verus!
