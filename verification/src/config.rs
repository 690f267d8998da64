//! Decoding a JSON document into rules and filter settings.
//!
//! The document is one object. Four of its keys name settings; every other
//! member is a rule, keyed by its match key.

use crate::error::ConfigError;
use crate::json::Json;
use crate::rules::{
    entry_models, EntryModel, MatchMode, Rule, RuleEntry, RuleModel, RuleSet, RuleSetModel,
};
use crate::settings::{FilterModel, FilterSettings, DEFAULT_COOLDOWN_MS};
use crate::text::{same_text, texts};
use vstd::prelude::*;

verus! {

/// A decoded configuration.
#[derive(Clone, Debug, PartialEq, Eq)]
pub struct Config {
    pub rules: RuleSet,
    pub settings: FilterSettings,
}

/// `Config` as mathematics.
pub struct ConfigModel {
    pub rules: RuleSetModel,
    pub settings: FilterModel,
}

impl View for Config {
    type V = ConfigModel;

    open spec fn view(&self) -> ConfigModel {
        ConfigModel { rules: self.rules@, settings: self.settings@ }
    }
}

/// The key of the list of ignored file names.
pub open spec fn ignore_file_key() -> Seq<char> {
    "sniff_ignore_file"@
}

/// The key of the list of ignored directories.
pub open spec fn ignore_dir_key() -> Seq<char> {
    "sniff_ignore_dir"@
}

/// The key of the cooldown.
pub open spec fn cooldown_key() -> Seq<char> {
    "sniff_cooldown"@
}

/// The key of the clear-terminal flag.
pub open spec fn clear_term_key() -> Seq<char> {
    "sniff_clear_term"@
}

/// The key of a scoped rule's working directory.
pub open spec fn working_dir_key() -> Seq<char> {
    "relative_dir"@
}

/// The key of a scoped rule's commands.
pub open spec fn commands_key() -> Seq<char> {
    "commands"@
}

/// Whether `name` is the key of a setting, and so not a match key.
pub open spec fn is_setting_key(name: Seq<char>) -> bool {
    ||| name == ignore_file_key()
    ||| name == ignore_dir_key()
    ||| name == cooldown_key()
    ||| name == clear_term_key()
}

/// The value of the last member of an object that is called `name`.
pub open spec fn member(members: Seq<(String, Json)>, name: Seq<char>) -> Option<Json>
    decreases members.len(),
{
    if members.len() == 0 {
        None
    } else if members.last().0@ == name {
        Some(members.last().1)
    } else {
        member(members.drop_last(), name)
    }
}

/// Every item is a string.
pub open spec fn all_text(items: Seq<Json>) -> bool {
    forall|i: int| 0 <= i < items.len() ==> #[trigger] items[i] is Text
}

/// The strings of a list of strings.
pub open spec fn text_items(items: Seq<Json>) -> Seq<Seq<char>> {
    Seq::new(items.len(), |i: int| items[i]->Text_0@)
}

/// The strings of `value` where it is a list of strings.
pub open spec fn text_list(value: Json) -> Option<Seq<Seq<char>>> {
    match value {
        Json::List(items) => if all_text(items@) {
            Some(text_items(items@))
        } else {
            None
        },
        _ => None,
    }
}

/// The rule that `value` describes, where it describes one; else what is
/// wrong with it, as an error at `entry`.
///
/// An array of strings is a simple rule. An object is a scoped rule: its
/// `relative_dir`, where it has one, must be a string and is the working
/// directory; its `commands`, where it has them, must be an array of strings;
/// its other members are not read.
pub open spec fn rule_of(value: Json, entry: usize) -> Result<RuleModel, ConfigError> {
    match value {
        Json::List(items) => match text_list(value) {
            Some(commands) => Ok(RuleModel::Simple { commands }),
            None => Err(ConfigError::Command { entry }),
        },
        Json::Object(members) => {
            let dir = member(members@, working_dir_key());
            let commands = member(members@, commands_key());
            if dir is Some && !(dir.unwrap() is Text) {
                Err(ConfigError::WorkingDir { entry })
            } else if commands is Some && !(commands.unwrap() is List) {
                Err(ConfigError::CommandList { entry })
            } else if commands is Some && text_list(commands.unwrap()) is None {
                Err(ConfigError::Command { entry })
            } else {
                Ok(
                    RuleModel::Scoped {
                        commands: match commands {
                            Some(list) => text_list(list).unwrap(),
                            None => Seq::empty(),
                        },
                        working_dir: match dir {
                            Some(text) => Some(text->Text_0@),
                            None => None,
                        },
                    },
                )
            }
        },
        _ => Err(ConfigError::RuleShape { entry }),
    }
}

/// The rules among the first `n` members of the document, in order; or the
/// error of the first member that is a rule and is wrong.
pub open spec fn rules_upto(members: Seq<(String, Json)>, n: int) -> Result<
    Seq<EntryModel>,
    ConfigError,
>
    decreases n,
{
    if n <= 0 {
        Ok(Seq::empty())
    } else {
        match rules_upto(members, n - 1) {
            Err(e) => Err(e),
            Ok(entries) => if is_setting_key(members[n - 1].0@) {
                Ok(entries)
            } else {
                match rule_of(members[n - 1].1, (n - 1) as usize) {
                    Ok(rule) => Ok(entries.push(EntryModel { key: members[n - 1].0@, rule })),
                    Err(e) => Err(e),
                }
            },
        }
    }
}

/// The settings that the members of the document give. A setting that is
/// missing, or whose value is not of its kind, has its default: no ignored
/// files, no ignored directories, the default cooldown, no clearing.
pub open spec fn settings_of(members: Seq<(String, Json)>) -> FilterModel {
    FilterModel {
        ignored_files: match member(members, ignore_file_key()) {
            Some(value) => match text_list(value) {
                Some(names) => names,
                None => Seq::empty(),
            },
            None => Seq::empty(),
        },
        ignored_dirs: match member(members, ignore_dir_key()) {
            Some(value) => match text_list(value) {
                Some(names) => names,
                None => Seq::empty(),
            },
            None => Seq::empty(),
        },
        cooldown_ms: match member(members, cooldown_key()) {
            Some(Json::Number(Some(ms))) => ms as int,
            _ => DEFAULT_COOLDOWN_MS as int,
        },
        clear_terminal: match member(members, clear_term_key()) {
            Some(Json::Bool(flag)) => flag,
            _ => false,
        },
    }
}

/// The configuration that `document` holds, its keys read by `mode`.
pub open spec fn decoded(document: Json, mode: MatchMode) -> Result<ConfigModel, ConfigError> {
    match document {
        Json::Object(members) => match rules_upto(members@, members@.len() as int) {
            Ok(entries) => Ok(
                ConfigModel {
                    rules: RuleSetModel { mode, entries },
                    settings: settings_of(members@),
                },
            ),
            Err(e) => Err(e),
        },
        _ => Err(ConfigError::NotAnObject),
    }
}

/// The value of the last member called `name`.
pub fn member_of<'a>(members: &'a Vec<(String, Json)>, name: &str) -> (r: Option<&'a Json>)
    ensures
        match r {
            Some(value) => member(members@, name@) == Some(*value),
            None => member(members@, name@) is None,
        },
{
    let mut i: usize = members.len();
    assert(members@.take(i as int) =~= members@);
    while i > 0
        invariant
            i <= members.len(),
            member(members@, name@) == member(members@.take(i as int), name@),
        decreases i,
    {
        if same_text(members[i - 1].0.as_str(), name) {
            return Some(&members[i - 1].1);
        }
        assert(members@.take(i as int).drop_last() =~= members@.take(i - 1));
        i -= 1;
    }
    None
}

/// The strings of `value` where it is a list of strings.
pub fn text_list_of(value: &Json) -> (r: Option<Vec<String>>)
    ensures
        match r {
            Some(list) => text_list(*value) == Some(texts(list@)),
            None => text_list(*value) is None,
        },
{
    match value {
        Json::List(items) => {
            let mut list: Vec<String> = Vec::new();
            let mut i: usize = 0;
            while i < items.len()
                invariant
                    i <= items.len(),
                    list.len() == i,
                    *value == Json::List(*items),
                    forall|j: int| 0 <= j < i ==> #[trigger] items[j] is Text,
                    forall|j: int| 0 <= j < i ==> (#[trigger] list[j])@ == items[j]->Text_0@,
                decreases items.len() - i,
            {
                match &items[i] {
                    Json::Text(text) => {
                        list.push(text.clone());
                    },
                    _ => {
                        assert(!(items@[i as int] is Text));
                        return None;
                    },
                }
                i += 1;
            }
            assert(texts(list@) =~= text_items(items@));
            Some(list)
        },
        _ => None,
    }
}

/// Whether `name` is the key of a setting.
pub fn is_setting_key_of(name: &str) -> (r: bool)
    ensures
        r == is_setting_key(name@),
{
    same_text(name, "sniff_ignore_file") || same_text(name, "sniff_ignore_dir") || same_text(
        name,
        "sniff_cooldown",
    ) || same_text(name, "sniff_clear_term")
}

/// Decodes the rule that `value` describes; `entry` is the place of the
/// rule in the document, for the error.
pub fn decode_rule(value: &Json, entry: usize) -> (r: Result<Rule, ConfigError>)
    ensures
        match r {
            Ok(rule) => rule_of(*value, entry) == Ok::<RuleModel, ConfigError>(rule@),
            Err(e) => rule_of(*value, entry) == Err::<RuleModel, ConfigError>(e),
        },
{
    match value {
        Json::List(_) => match text_list_of(value) {
            Some(commands) => Ok(Rule::Simple { commands }),
            None => Err(ConfigError::Command { entry }),
        },
        Json::Object(members) => {
            let working_dir = match member_of(members, "relative_dir") {
                Some(Json::Text(text)) => Some(text.clone()),
                Some(_) => {
                    return Err(ConfigError::WorkingDir { entry });
                },
                None => None,
            };
            let commands = match member_of(members, "commands") {
                Some(list) => {
                    match list {
                        Json::List(_) => {},
                        _ => {
                            return Err(ConfigError::CommandList { entry });
                        },
                    }
                    match text_list_of(list) {
                        Some(commands) => commands,
                        None => {
                            return Err(ConfigError::Command { entry });
                        },
                    }
                },
                None => Vec::new(),
            };
            let rule = Rule::Scoped { commands, working_dir };
            assert(rule@ == rule_of(*value, entry).unwrap()) by {
                assert(rule@->Scoped_commands =~= rule_of(*value, entry).unwrap()->Scoped_commands);
            }
            Ok(rule)
        },
        _ => Err(ConfigError::RuleShape { entry }),
    }
}

/// Decodes the settings that the members of the document give.
pub fn decode_settings(members: &Vec<(String, Json)>) -> (r: FilterSettings)
    ensures
        r@ == settings_of(members@),
{
    let ignored_files = match member_of(members, "sniff_ignore_file") {
        Some(value) => match text_list_of(value) {
            Some(names) => names,
            None => Vec::new(),
        },
        None => Vec::new(),
    };
    let ignored_dirs = match member_of(members, "sniff_ignore_dir") {
        Some(value) => match text_list_of(value) {
            Some(names) => names,
            None => Vec::new(),
        },
        None => Vec::new(),
    };
    let cooldown_ms = match member_of(members, "sniff_cooldown") {
        Some(Json::Number(Some(ms))) => *ms,
        _ => DEFAULT_COOLDOWN_MS,
    };
    let clear_terminal = match member_of(members, "sniff_clear_term") {
        Some(Json::Bool(flag)) => *flag,
        _ => false,
    };
    let r = FilterSettings { ignored_files, ignored_dirs, cooldown_ms, clear_terminal };
    assert(r@.ignored_files =~= settings_of(members@).ignored_files);
    assert(r@.ignored_dirs =~= settings_of(members@).ignored_dirs);
    r
}

/// Decodes the configuration that `document` holds, its keys read by `mode`.
///
/// Succeeds if the document is an object and each of its members that is
/// not a setting describes a rule; the error is that of the first member
/// that does not.
pub fn decode(document: &Json, mode: MatchMode) -> (r: Result<Config, ConfigError>)
    ensures
        match r {
            Ok(config) => decoded(*document, mode) == Ok::<ConfigModel, ConfigError>(config@),
            Err(e) => decoded(*document, mode) == Err::<ConfigModel, ConfigError>(e),
        },
{
    match document {
        Json::Object(members) => {
            let mut entries: Vec<RuleEntry> = Vec::new();
            let mut i: usize = 0;
            assert(entry_models(entries@) =~= Seq::empty());
            while i < members.len()
                invariant
                    i <= members.len(),
                    *document == Json::Object(*members),
                    rules_upto(members@, i as int) == Ok::<Seq<EntryModel>, ConfigError>(
                        entry_models(entries@),
                    ),
                decreases members.len() - i,
            {
                if !is_setting_key_of(members[i].0.as_str()) {
                    match decode_rule(&members[i].1, i) {
                        Ok(rule) => {
                            let ghost before = entry_models(entries@);
                            entries.push(RuleEntry { key: members[i].0.clone(), rule });
                            assert(entry_models(entries@) =~= before.push(
                                EntryModel { key: members[i as int].0@, rule: rule@ },
                            ));
                        },
                        Err(e) => {
                            proof {
                                assert(rules_upto(members@, i + 1) == Err::<
                                    Seq<EntryModel>,
                                    ConfigError,
                                >(e));
                                rules_upto_keeps_error(members@, i + 1, members@.len() as int);
                            }
                            return Err(e);
                        },
                    }
                }
                i += 1;
            }
            Ok(Config { rules: RuleSet { mode, entries }, settings: decode_settings(members) })
        },
        _ => Err(ConfigError::NotAnObject),
    }
}

/// An error among the first `n` members is the error of any longer prefix.
proof fn rules_upto_keeps_error(members: Seq<(String, Json)>, n: int, m: int)
    requires
        n <= m,
        rules_upto(members, n) is Err,
    ensures
        rules_upto(members, m) == rules_upto(members, n),
    decreases m - n,
{
    if n < m {
        rules_upto_keeps_error(members, n, m - 1);
    }
}

} // verus!
