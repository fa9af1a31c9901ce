//! The command table: which entries of the command file become commands, how a
//! button label turns into a search query, and how the buttons are laid out.
use std::collections::BTreeMap;
use vstd::prelude::*;
use crate::text::{
    chars_of, lowercase, replace_char, replace_char_in, string_of, to_lowercase,
    trim_chars, trim_ws,
};

verus! {

#[verifier::external_type_specification]
#[verifier::external_body]
pub struct ExRegex(regex::Regex);

#[verifier::external_type_specification]
#[verifier::external_body]
pub struct ExRegexError(regex::Error);

/// Name for whether `regex::Regex::new` accepts `pattern` (with the crate's default
/// size limits, which are fixed).
pub uninterp spec fn regex_compiles(pattern: Seq<char>) -> bool;

/// Name for what `regex::Regex::is_match` returns for the regex compiled from `pattern`:
/// whether it matches anywhere in `haystack`.
pub uninterp spec fn regex_is_match(pattern: Seq<char>, haystack: Seq<char>) -> bool;

/// Name for what `regex::Regex::replace` returns for the regex compiled from `pattern`:
/// `haystack` with its leftmost-first match replaced by `replacement`, in which `$name`
/// and `$N` stand for capture groups.
pub uninterp spec fn regex_replace(
    pattern: Seq<char>,
    haystack: Seq<char>,
    replacement: Seq<char>,
) -> Seq<char>;

/// The pattern that marks a command label: one character with the Unicode `Emoji`
/// property at the very start, with the white space that follows it.
pub const EMOJI_PREFIX: &'static str = "^\\p{Emoji}\\s*";

/// A compiled regular expression together with the pattern it was compiled from.
/// Only `LabelPattern::compile` builds one, so the two always agree.
pub struct LabelPattern {
    source: String,
    regex: regex::Regex,
}

impl LabelPattern {
    /// The pattern this was compiled from.
    pub closed spec fn source(&self) -> Seq<char> {
        self.source@
    }

    /// Compiles `source` with `regex::Regex::new`, keeping the pattern beside the result.
    /// Claims: the compile succeeds exactly when `regex_compiles` holds of the pattern,
    /// and the kept pattern is `source`.
    #[verifier::external_body]
    fn compile(source: &str) -> (r: Result<LabelPattern, regex::Error>)
        ensures
            r is Ok <==> regex_compiles(source@),
            r matches Ok(p) ==> p.source() == source@,
    {
        match regex::Regex::new(source) {
            Ok(regex) => Ok(LabelPattern { source: source.to_string(), regex }),
            Err(e) => Err(e),
        }
    }

    /// `regex::Regex::is_match` on the compiled regex. Claims: the answer is
    /// `regex_is_match` of the kept pattern and `haystack`.
    #[verifier::external_body]
    fn is_match(&self, haystack: &str) -> (b: bool)
        ensures
            b == regex_is_match(self.source(), haystack@),
    {
        self.regex.is_match(haystack)
    }

    /// `regex::Regex::replace` on the compiled regex. Claims: the result is
    /// `regex_replace` of the kept pattern, `haystack` and `replacement`, and, as the
    /// crate documents, `haystack` unchanged where the regex does not match.
    #[verifier::external_body]
    fn replace_first(&self, haystack: &str, replacement: &str) -> (r: String)
        ensures
            r@ == regex_replace(self.source(), haystack@, replacement@),
            !regex_is_match(self.source(), haystack@) ==> r@ == haystack@,
    {
        self.regex.replace(haystack, replacement).into_owned()
    }

    /// The pattern that command labels start with, compiled.
    pub fn emoji_prefix() -> (r: Result<LabelPattern, regex::Error>)
        ensures
            r is Ok <==> regex_compiles("^\\p{Emoji}\\s*"@),
            r matches Ok(p) ==> p.source() == "^\\p{Emoji}\\s*"@,
    {
        LabelPattern::compile(EMOJI_PREFIX)
    }
}

} // verus!

verus! {

/// A photo command: the button label, the search query it stands for, and the text
/// shown when it cannot be served.
#[derive(Debug, Clone, PartialEq, Eq)]
pub struct Command {
    pub name: String,
    pub action: String,
    pub error_msg: String,
}

impl Command {
    /// The label, query and error text of the command.
    pub open spec fn view_triple(self) -> (Seq<char>, Seq<char>, Seq<char>) {
        (self.name@, self.action@, self.error_msg@)
    }
}

/// The `error_msg` field of an entry of the command file.
#[derive(Debug, Clone, PartialEq, Eq)]
pub enum ErrorMsgField {
    /// The entry has no `error_msg` field.
    Missing,
    /// The field is there but holds no text.
    NotText,
    /// The field holds this text.
    Text(String),
}

/// One top-level entry of the command file: its key and its `error_msg` field.
#[derive(Debug, Clone, PartialEq, Eq)]
pub struct CommandEntry {
    pub key: String,
    pub error_msg: ErrorMsgField,
}

/// Why the command file yields no command table.
#[derive(Debug, PartialEq, Eq)]
pub enum CommandsError {
    /// The text is not a YAML mapping from names to mappings.
    Unparsable,
    /// The command with this label has no `error_msg` field.
    MissingErrorMessage(String),
    /// The `error_msg` field of the command with this label holds no text.
    ErrorMessageNotText(String),
}

/// An entry as plain values: its key, `0`, `1` or `2` where its `error_msg` field is
/// missing, holds no text, or holds text, and that text (empty unless there is one).
pub open spec fn entry_view(e: CommandEntry) -> (Seq<char>, u8, Seq<char>) {
    match e.error_msg {
        ErrorMsgField::Missing => (e.key@, 0u8, Seq::empty()),
        ErrorMsgField::NotText => (e.key@, 1u8, Seq::empty()),
        ErrorMsgField::Text(t) => (e.key@, 2u8, t@),
    }
}

/// The entries as plain values, in order.
pub open spec fn entry_views(entries: Seq<CommandEntry>) -> Seq<(Seq<char>, u8, Seq<char>)> {
    entries.map_values(|e: CommandEntry| entry_view(e))
}

/// Whether `a` comes before `b` in the order of `String`'s `Ord`: code point by code
/// point, a proper prefix first (the byte order of their UTF-8 encodings).
pub open spec fn key_less(a: Seq<char>, b: Seq<char>) -> bool
    decreases a.len(),
{
    if a.len() == 0 {
        b.len() > 0
    } else if b.len() == 0 {
        false
    } else if a[0] != b[0] {
        (a[0] as u32) < (b[0] as u32)
    } else {
        key_less(a.drop_first(), b.drop_first())
    }
}

/// No key comes before itself.
pub proof fn lemma_key_less_irreflexive(a: Seq<char>)
    ensures
        !key_less(a, a),
    decreases a.len(),
{
    if a.len() > 0 {
        lemma_key_less_irreflexive(a.drop_first());
    }
}

/// The fields of one entry of a YAML file as plain values: each field's name, and its
/// text where the field holds text.
pub open spec fn fields_view(fields: Seq<(String, Option<String>)>) -> Seq<
    (Seq<char>, Option<Seq<char>>),
> {
    fields.map_values(
        |f: (String, Option<String>)|
            (
                f.0@,
                match f.1 {
                    Some(t) => Some(t@),
                    None => None,
                },
            ),
    )
}

/// The entries of a YAML file as plain values: each key with its fields.
pub open spec fn file_view(file: Seq<(String, Vec<(String, Option<String>)>)>) -> Seq<
    (Seq<char>, Seq<(Seq<char>, Option<Seq<char>>)>),
> {
    file.map_values(|e: (String, Vec<(String, Option<String>)>)| (e.0@, fields_view(e.1@)))
}

/// Name for what `serde_yaml::from_str` gives for a text read as a
/// `BTreeMap<String, BTreeMap<String, serde_yaml::Value>>`: `None` where the text is not
/// such a mapping, else each key with each of its fields, the field's value taken by
/// `serde_yaml::Value::as_str`.
pub uninterp spec fn yaml_mapping_of_mappings(text: Seq<char>) -> Option<
    Seq<(Seq<char>, Seq<(Seq<char>, Option<Seq<char>>)>)>,
>;

/// Reads `text` with `serde_yaml::from_str` as a
/// `BTreeMap<String, BTreeMap<String, serde_yaml::Value>>` and gives it as plain values,
/// each field's value through `serde_yaml::Value::as_str`. Claims: the result is the
/// named `yaml_mapping_of_mappings` of the text, and, as a `BTreeMap` iterates its keys
/// once each in ascending order, the outer keys ascend strictly.
#[verifier::external_body]
fn parse_yaml_mapping(text: &str) -> (r: Option<Vec<(String, Vec<(String, Option<String>)>)>>)
    ensures
        r is Some <==> yaml_mapping_of_mappings(text@) is Some,
        r matches Some(m) ==> file_view(m@) == yaml_mapping_of_mappings(text@)->0,
        r matches Some(m) ==> forall|i: int, j: int|
            0 <= i < j < m@.len() ==> key_less(m@[i].0@, m@[j].0@),
{
    match serde_yaml::from_str::<BTreeMap<String, BTreeMap<String, serde_yaml::Value>>>(text) {
        Ok(all) => Some(all.into_iter().map(|(key, fields)| (key, fields.into_iter().map(
            |(name, value)| (name, value.as_str().map(|t| t.to_string())),
        ).collect())).collect()),
        Err(_) => None,
    }
}

/// The field that holds a command's error text.
pub const ERROR_MSG_FIELD: &'static str = "error_msg";

/// The `error_msg` field among an entry's fields, as `entry_view` writes it: `0` where
/// there is none, `1` where it holds no text, `2` and the text where it does.
pub open spec fn error_msg_of(fields: Seq<(Seq<char>, Option<Seq<char>>)>) -> (u8, Seq<char>)
    decreases fields.len(),
{
    if fields.len() == 0 {
        (0u8, Seq::empty())
    } else if fields[0].0 == "error_msg"@ {
        match fields[0].1 {
            Some(t) => (2u8, t),
            None => (1u8, Seq::empty()),
        }
    } else {
        error_msg_of(fields.drop_first())
    }
}

/// The entries of a command file, as `entry_view` writes them: each key with its
/// `error_msg` field.
pub open spec fn file_entries(file: Seq<(Seq<char>, Seq<(Seq<char>, Option<Seq<char>>)>)>) -> Seq<
    (Seq<char>, u8, Seq<char>),
> {
    file.map_values(
        |e: (Seq<char>, Seq<(Seq<char>, Option<Seq<char>>)>)|
            (e.0, error_msg_of(e.1).0, error_msg_of(e.1).1),
    )
}

/// The entries of a command file given as parsed YAML, in the file's key order.
pub open spec fn command_file_entries(text: Seq<char>) -> Option<Seq<(Seq<char>, u8, Seq<char>)>> {
    match yaml_mapping_of_mappings(text) {
        Some(file) => Some(file_entries(file)),
        None => None,
    }
}

/// The `error_msg` field among the fields of one entry.
pub fn error_msg_field(fields: &Vec<(String, Option<String>)>) -> (f: ErrorMsgField)
    ensures
        (match f {
            ErrorMsgField::Missing => (0u8, Seq::<char>::empty()),
            ErrorMsgField::NotText => (1u8, Seq::<char>::empty()),
            ErrorMsgField::Text(t) => (2u8, t@),
        }) == error_msg_of(fields_view(fields@)),
{
    let wanted = String::from_str(ERROR_MSG_FIELD);
    let ghost fv = fields_view(fields@);
    let mut i: usize = 0;
    assert(fv.skip(0) =~= fv);
    while i < fields.len()
        invariant
            i <= fields@.len(),
            fv == fields_view(fields@),
            wanted@ == ERROR_MSG_FIELD@,
            error_msg_of(fv) == error_msg_of(fv.skip(i as int)),
        decreases fields@.len() - i,
    {
        assert(fv.skip(i as int).drop_first() =~= fv.skip(i + 1));
        let field = &fields[i];
        assert(fv[i as int].0 == field.0@);
        if field.0 == wanted {
            return match &field.1 {
                Some(t) => ErrorMsgField::Text(t.clone()),
                None => ErrorMsgField::NotText,
            };
        }
        i += 1;
    }
    ErrorMsgField::Missing
}

/// The entries of a command file, each key with its `error_msg` field, in order.
pub fn entries_of_file(file: &Vec<(String, Vec<(String, Option<String>)>)>) -> (es: Vec<
    CommandEntry,
>)
    ensures
        entry_views(es@) == file_entries(file_view(file@)),
        forall|i: int| 0 <= i < es@.len() ==> #[trigger] es@[i].key@ == file@[i].0@,
{
    let ghost target = file_entries(file_view(file@));
    let mut es: Vec<CommandEntry> = Vec::new();
    let mut i: usize = 0;
    while i < file.len()
        invariant
            i <= file@.len(),
            target == file_entries(file_view(file@)),
            entry_views(es@) == target.take(i as int),
            es@.len() == i,
            forall|k: int| 0 <= k < i ==> #[trigger] es@[k].key@ == file@[k].0@,
        decreases file@.len() - i,
    {
        let entry = &file[i];
        let field = error_msg_field(&entry.1);
        let ghost before = es@;
        es.push(CommandEntry { key: entry.0.clone(), error_msg: field });
        assert(file_view(file@)[i as int] == (entry.0@, fields_view(entry.1@)));
        assert(entry_views(es@) =~= entry_views(before).push(entry_view(es@[i as int])));
        assert(target.take(i + 1) =~= target.take(i as int).push(target[i as int]));
        i += 1;
    }
    assert(target.take(file@.len() as int) =~= target);
    es
}

/// The search query of the command whose label is `key`: the label without the
/// pattern's first match, lower-cased, with every space turned into `_`.
pub open spec fn command_action(pattern: Seq<char>, key: Seq<char>) -> Seq<char> {
    replace_char(lowercase(regex_replace(pattern, key, Seq::empty())), ' ', '_')
}

/// The command that a typed label stands for: the label without the pattern's first
/// match, trimmed of white space, lower-cased.
pub open spec fn label_command(pattern: Seq<char>, label: Seq<char>) -> Seq<char> {
    lowercase(trim_ws(regex_replace(pattern, label, Seq::empty())))
}

/// Whether an entry is a command (its key matches the pattern) and, if it is, whether
/// its error text is there.
pub open spec fn entry_ready(pattern: Seq<char>, e: (Seq<char>, u8, Seq<char>)) -> bool {
    regex_is_match(pattern, e.0) ==> e.1 == 2
}

/// Whether every command among the entries has its error text.
pub open spec fn all_ready(pattern: Seq<char>, entries: Seq<(Seq<char>, u8, Seq<char>)>) -> bool {
    forall|i: int| 0 <= i < entries.len() ==> entry_ready(pattern, #[trigger] entries[i])
}

/// The commands that the entries yield, in the entries' order: one for each entry whose
/// key matches the pattern.
pub open spec fn listed_commands(pattern: Seq<char>, entries: Seq<(Seq<char>, u8, Seq<char>)>) -> Seq<
    (Seq<char>, Seq<char>, Seq<char>),
>
    decreases entries.len(),
{
    if entries.len() == 0 {
        Seq::empty()
    } else {
        let rest = listed_commands(pattern, entries.drop_last());
        let e = entries.last();
        if regex_is_match(pattern, e.0) && e.1 == 2 {
            rest.push((e.0, command_action(pattern, e.0), e.2))
        } else {
            rest
        }
    }
}

/// Entry `i` is the first command of `entries` whose error text is not there.
pub open spec fn first_unready(pattern: Seq<char>, entries: Seq<(Seq<char>, u8, Seq<char>)>, i: int) -> bool {
    &&& 0 <= i < entries.len()
    &&& !entry_ready(pattern, entries[i])
    &&& forall|j: int| 0 <= j < i ==> entry_ready(pattern, #[trigger] entries[j])
}

/// What the entries of a command file give: the error of the first command without
/// error text, if there is one.
pub open spec fn entries_error_spec(
    pattern: Seq<char>,
    entries: Seq<(Seq<char>, u8, Seq<char>)>,
    r: Result<(), CommandsError>,
) -> bool {
    &&& r is Ok <==> all_ready(pattern, entries)
    &&& !(r matches Err(CommandsError::Unparsable))
    &&& r matches Err(CommandsError::MissingErrorMessage(k)) ==> exists|i: int|
        first_unready(pattern, entries, i) && (#[trigger] entries[i]).1 == 0 && k@ == entries[i].0
    &&& r matches Err(CommandsError::ErrorMessageNotText(k)) ==> exists|i: int|
        first_unready(pattern, entries, i) && (#[trigger] entries[i]).1 == 1 && k@ == entries[i].0
}

/// Checks that every command among the entries has its error text; where one has not,
/// names the first such command.
pub fn check_command_entries(pattern: &LabelPattern, entries: &Vec<CommandEntry>) -> (r: Result<
    (),
    CommandsError,
>)
    ensures
        entries_error_spec(pattern.source(), entry_views(entries@), r),
{
    let ghost src = pattern.source();
    let ghost views = entry_views(entries@);
    let mut i: usize = 0;
    while i < entries.len()
        invariant
            src == pattern.source(),
            views == entry_views(entries@),
            i <= entries@.len(),
            forall|j: int| 0 <= j < i ==> entry_ready(src, #[trigger] views[j]),
        decreases entries@.len() - i,
    {
        let e = &entries[i];
        assert(views[i as int] == entry_view(*e));
        if pattern.is_match(e.key.as_str()) {
            match &e.error_msg {
                ErrorMsgField::Text(_) => {},
                ErrorMsgField::Missing => {
                    assert(first_unready(src, views, i as int));
                    return Err(CommandsError::MissingErrorMessage(e.key.clone()));
                },
                ErrorMsgField::NotText => {
                    assert(first_unready(src, views, i as int));
                    return Err(CommandsError::ErrorMessageNotText(e.key.clone()));
                },
            }
        }
        i += 1;
    }
    Ok(())
}

/// The command table given the entries of the command file in key order: every entry
/// whose key matches `pattern` becomes a command, in order. Every such entry must have
/// its error text (`check_command_entries` tells).
pub fn load_commands_with_emoji(pattern: &LabelPattern, entries: &Vec<CommandEntry>) -> (cs: Vec<
    Command,
>)
    requires
        all_ready(pattern.source(), entry_views(entries@)),
    ensures
        cs@.map_values(|c: Command| c.view_triple()) == listed_commands(
            pattern.source(),
            entry_views(entries@),
        ),
{
    let ghost src = pattern.source();
    let ghost views = entry_views(entries@);
    let mut out: Vec<Command> = Vec::new();
    let mut i: usize = 0;
    while i < entries.len()
        invariant
            src == pattern.source(),
            views == entry_views(entries@),
            i <= entries@.len(),
            all_ready(src, views),
            out@.map_values(|c: Command| c.view_triple()) == listed_commands(
                src,
                views.take(i as int),
            ),
        decreases entries@.len() - i,
    {
        let e = &entries[i];
        assert(views[i as int] == entry_view(*e));
        assert(entry_ready(src, views[i as int]));
        assert(views.take(i + 1).drop_last() =~= views.take(i as int));
        if pattern.is_match(e.key.as_str()) {
            if let ErrorMsgField::Text(m) = &e.error_msg {
                let empty = String::new();
                let stripped = pattern.replace_first(e.key.as_str(), empty.as_str());
                let lower = to_lowercase(stripped.as_str());
                let lower_chars = chars_of(lower.as_str());
                let action_chars = replace_char_in(lower_chars.as_slice(), ' ', '_');
                let action = string_of(action_chars.as_slice());
                let ghost before = out@;
                out.push(Command { name: e.key.clone(), action, error_msg: m.clone() });
                assert(out@.map_values(|c: Command| c.view_triple()) =~= before.map_values(
                    |c: Command| c.view_triple(),
                ).push(out@.last().view_triple()));
            }
        }
        i += 1;
    }
    assert(views.take(entries@.len() as int) =~= views);
    out
}

/// The command table of a command file, given its text: the file is read as YAML, then
/// every entry whose key matches `pattern` becomes a command, in ascending key order.
/// Fails where the text is not such a file, or where a command has no error text.
pub fn commands_from_file_text(pattern: &LabelPattern, text: &str) -> (r: Result<
    Vec<Command>,
    CommandsError,
>)
    ensures
        match command_file_entries(text@) {
            None => r matches Err(CommandsError::Unparsable),
            Some(es) => {
                &&& r matches Ok(cs) ==> cs@.map_values(|c: Command| c.view_triple())
                    == listed_commands(pattern.source(), es)
                &&& r matches Ok(cs) ==> forall|i: int, j: int|
                    0 <= i < j < cs@.len() ==> key_less(cs@[i].name@, cs@[j].name@)
                &&& r matches Err(e) ==> entries_error_spec(pattern.source(), es, Err(e))
                &&& r is Ok <==> all_ready(pattern.source(), es)
            },
        },
{
    match parse_yaml_mapping(text) {
        None => Err(CommandsError::Unparsable),
        Some(file) => {
            let entries = entries_of_file(&file);
            proof {
                let views = entry_views(entries@);
                assert forall|i: int, j: int| 0 <= i < j < views.len() implies key_less(
                    views[i].0,
                    views[j].0,
                ) by {
                    assert(views[i].0 == entries@[i].key@);
                    assert(views[j].0 == entries@[j].key@);
                }
            }
            match check_command_entries(pattern, &entries) {
                Err(e) => Err(e),
                Ok(()) => {
                    let cs = load_commands_with_emoji(pattern, &entries);
                    proof {
                        law_command_table_follows_key_order(pattern.source(), entry_views(entries@));
                        assert forall|i: int, j: int| 0 <= i < j < cs@.len() implies key_less(
                            cs@[i].name@,
                            cs@[j].name@,
                        ) by {
                            let v = cs@.map_values(|c: Command| c.view_triple());
                            assert(v[i].0 == cs@[i].name@ && v[j].0 == cs@[j].name@);
                        }
                    }
                    Ok(cs)
                },
            }
        },
    }
}

/// The command table keeps the file's key order: where the keys of the entries ascend
/// strictly, the labels of the commands do too, so no label comes twice; every label is
/// the key of one of the entries, and there are no more commands than entries.
pub proof fn law_command_table_follows_key_order(
    pattern: Seq<char>,
    entries: Seq<(Seq<char>, u8, Seq<char>)>,
)
    requires
        forall|i: int, j: int| 0 <= i < j < entries.len() ==> key_less(entries[i].0, entries[j].0),
    ensures
        ({
            let cs = listed_commands(pattern, entries);
            &&& cs.len() <= entries.len()
            &&& forall|i: int| 0 <= i < cs.len() ==> exists|k: int|
                0 <= k < entries.len() && #[trigger] cs[i].0 == entries[k].0
            &&& forall|i: int, j: int| 0 <= i < j < cs.len() ==> key_less(cs[i].0, cs[j].0)
            &&& forall|i: int, j: int| 0 <= i < j < cs.len() ==> cs[i].0 != cs[j].0
        }),
    decreases entries.len(),
{
    let cs = listed_commands(pattern, entries);
    if entries.len() > 0 {
        let prev = entries.drop_last();
        law_command_table_follows_key_order(pattern, prev);
        let pc = listed_commands(pattern, prev);
        assert forall|i: int| 0 <= i < cs.len() implies exists|k: int|
            0 <= k < entries.len() && #[trigger] cs[i].0 == entries[k].0 by {
            if i < pc.len() {
                let k = choose|k: int| 0 <= k < prev.len() && #[trigger] pc[i].0 == prev[k].0;
                assert(cs[i].0 == entries[k].0);
            } else {
                assert(cs[i].0 == entries[entries.len() - 1].0);
            }
        }
        assert forall|i: int, j: int| 0 <= i < j < cs.len() implies key_less(cs[i].0, cs[j].0) by {
            if j >= pc.len() {
                let k = choose|k: int| 0 <= k < prev.len() && #[trigger] pc[i].0 == prev[k].0;
                assert(cs[i].0 == entries[k].0);
                assert(cs[j].0 == entries[entries.len() - 1].0);
            }
        }
    }
    assert forall|i: int, j: int| 0 <= i < j < cs.len() implies cs[i].0 != cs[j].0 by {
        lemma_key_less_irreflexive(cs[i].0);
    }
}

/// The command that a label typed by a user stands for.
pub fn extract_command_from_label(pattern: &LabelPattern, label: &str) -> (r: String)
    ensures
        r@ == label_command(pattern.source(), label@),
        !regex_is_match(pattern.source(), label@) ==> r@ == lowercase(trim_ws(label@)),
{
    let empty = String::new();
    let stripped = pattern.replace_first(label, empty.as_str());
    let stripped_chars = chars_of(stripped.as_str());
    let trimmed = trim_chars(stripped_chars.as_slice());
    let trimmed_text = string_of(trimmed.as_slice());
    to_lowercase(trimmed_text.as_str())
}

} // verus!

verus! {

/// A reply keyboard: rows of button labels, and whether the client may shrink it to fit.
#[derive(Debug, PartialEq, Eq)]
pub struct Keyboard {
    pub rows: Vec<Vec<String>>,
    pub resize_keyboard: bool,
}

/// The labels of a row of buttons.
pub open spec fn row_view(row: Vec<String>) -> Seq<Seq<char>> {
    row@.map_values(|s: String| s@)
}

/// The labels of every row, row by row.
pub open spec fn rows_view(rows: Seq<Vec<String>>) -> Seq<Seq<Seq<char>>> {
    rows.map_values(|r: Vec<String>| row_view(r))
}

/// The labels of the commands, in order.
pub open spec fn labels_of(commands: Seq<Command>) -> Seq<Seq<char>> {
    commands.map_values(|c: Command| c.name@)
}

/// Row `r` of the layout: labels `3r` up to `3r + 3`, or to the end.
pub open spec fn layout_row(labels: Seq<Seq<char>>, r: int) -> Seq<Seq<char>> {
    labels.subrange(3 * r, if 3 * r + 3 <= labels.len() { 3 * r + 3 } else { labels.len() as int })
}

/// The labels laid out three to a row, in order; the last row holds what is left.
pub open spec fn keyboard_layout(labels: Seq<Seq<char>>) -> Seq<Seq<Seq<char>>> {
    Seq::new(((labels.len() + 2) / 3) as nat, |r: int| layout_row(labels, r))
}

/// The main keyboard: one button per command, three to a row, resizable.
pub fn get_main_keyboard(commands: &[Command]) -> (k: Keyboard)
    ensures
        rows_view(k.rows@) == keyboard_layout(labels_of(commands@)),
        k.resize_keyboard,
        k.rows@.map_values(|row: Vec<String>| row@.map_values(|s: String| s@)).flatten()
            == commands@.map_values(|c: Command| c.name@),
        forall|r: int| 0 <= r < k.rows@.len() ==> 1 <= (#[trigger] k.rows@[r]).len() <= 3,
        forall|r: int| 0 <= r < k.rows@.len() - 1 ==> (#[trigger] k.rows@[r]).len() == 3,
{
    let ghost labels = labels_of(commands@);
    let n = commands.len();
    let mut rows: Vec<Vec<String>> = Vec::new();
    let mut start: usize = 0;
    while start < n
        invariant
            n == commands@.len(),
            labels == labels_of(commands@),
            start <= n,
            start == n || start == 3 * rows@.len(),
            3 * rows@.len() >= start,
            rows@.len() == 0 || 3 * (rows@.len() - 1) < n,
            forall|r: int| 0 <= r < rows@.len() ==> row_view(#[trigger] rows@[r]) == layout_row(labels, r),
        decreases n - start,
    {
        assert(start == 3 * rows@.len());
        let end: usize = if n - start >= 3 { start + 3 } else { n };
        let mut row: Vec<String> = Vec::new();
        let mut j: usize = start;
        while j < end
            invariant
                n == commands@.len(),
                labels == labels_of(commands@),
                start <= j <= end <= n,
                row_view(row) == labels.subrange(start as int, j as int),
            decreases end - j,
        {
            let ghost before = row;
            let label = commands[j].name.clone();
            row.push(label);
            assert(row_view(row) =~= row_view(before).push(labels[j as int]));
            j += 1;
            assert(row_view(row) =~= labels.subrange(start as int, j as int));
        }
        assert(row_view(row) =~= layout_row(labels, rows@.len() as int));
        rows.push(row);
        start = end;
    }
    let ghost count = rows@.len();
    assert(count == (n + 2) / 3) by (nonlinear_arith)
        requires
            3 * count >= n,
            count == 0 || 3 * (count - 1) < n,
    ;
    assert(rows_view(rows@) =~= keyboard_layout(labels));
    proof {
        law_keyboard_shows_every_label(labels);
        assert(labels =~= commands@.map_values(|c: Command| c.name@));
        assert(rows_view(rows@) =~= rows@.map_values(|row: Vec<String>| row@.map_values(|s: String| s@)));
        assert forall|r: int| 0 <= r < rows@.len() implies 1 <= (#[trigger] rows@[r]).len() <= 3 && (r
            < rows@.len() - 1 ==> rows@[r].len() == 3) by {
            assert(rows_view(rows@)[r] == row_view(rows@[r]));
            assert(keyboard_layout(labels)[r] == rows_view(rows@)[r]);
        }
    }
    Keyboard { rows, resize_keyboard: true }
}

} // verus!

verus! {

/// The main keyboard shows every command label exactly once, in the order of the
/// commands: read row by row, its labels are the labels of the commands. Every row
/// holds one to three buttons, and every row but the last holds three.
pub proof fn law_keyboard_shows_every_label(labels: Seq<Seq<char>>)
    ensures
        keyboard_layout(labels).flatten() == labels,
        forall|r: int|
            0 <= r < keyboard_layout(labels).len() ==> 1 <= (#[trigger] keyboard_layout(
                labels,
            )[r]).len() <= 3,
        forall|r: int|
            0 <= r < keyboard_layout(labels).len() - 1 ==> (#[trigger] keyboard_layout(
                labels,
            )[r]).len() == 3,
    decreases labels.len(),
{
    let rows = keyboard_layout(labels);
    let n = labels.len();
    assert forall|r: int| 0 <= r < rows.len() implies 1 <= (#[trigger] rows[r]).len() <= 3 && (r
        < rows.len() - 1 ==> rows[r].len() == 3) by {
        assert(3 * r < n && (r < (n + 2) / 3 - 1 ==> 3 * r + 3 <= n)) by (nonlinear_arith)
            requires
                0 <= r < (n + 2) / 3,
        ;
    }
    if n > 0 {
        let k: int = if n >= 3 { 3 } else { n as int };
        let rest = labels.skip(k);
        law_keyboard_shows_every_label(rest);
        assert(rows.len() == 1 + (rest.len() + 2) / 3);
        assert forall|r: int| 0 <= r < rows.len() - 1 implies #[trigger] rows.drop_first()[r]
            == keyboard_layout(rest)[r] by {
            assert(rows.drop_first()[r] == layout_row(labels, r + 1));
            assert(layout_row(labels, r + 1) =~= layout_row(rest, r));
        }
        assert(rows.drop_first() =~= keyboard_layout(rest));
        assert(rows.first() =~= labels.take(k));
        assert(labels =~= labels.take(k) + rest);
    } else {
        assert(rows =~= Seq::<Seq<Seq<char>>>::empty());
    }
}

/// Every command of the table has a query without spaces.
pub proof fn law_command_queries_have_no_spaces(
    pattern: Seq<char>,
    entries: Seq<(Seq<char>, u8, Seq<char>)>,
)
    ensures
        forall|i: int, j: int|
            0 <= i < listed_commands(pattern, entries).len() && 0 <= j < listed_commands(
                pattern,
                entries,
            )[i].1.len() ==> #[trigger] listed_commands(pattern, entries)[i].1[j] != ' ',
    decreases entries.len(),
{
    let cmds = listed_commands(pattern, entries);
    if entries.len() > 0 {
        let prev = listed_commands(pattern, entries.drop_last());
        law_command_queries_have_no_spaces(pattern, entries.drop_last());
        assert forall|i: int, j: int| 0 <= i < cmds.len() && 0 <= j < cmds[i].1.len() implies #[trigger] cmds[i].1[j] != ' ' by {
            if i < prev.len() {
                assert(cmds[i] == prev[i]);
            } else {
                let key = entries.last().0;
                let lowered = lowercase(regex_replace(pattern, key, Seq::empty()));
                assert(cmds[i].1 == replace_char(lowered, ' ', '_'));
                assert(cmds[i].1[j] == (if lowered[j] == ' ' { '_' } else { lowered[j] }));
            }
        }
    }
}

} // verus!

verus! {

/// Every command of the table comes from an entry whose key matches the pattern and that
/// has error text: its label matches the pattern and is that entry's key, its error text
/// is the entry's, and its query is the label without the pattern's first match,
/// lower-cased, with each space turned into `_` and nothing else changed. There are no
/// more commands than entries.
pub proof fn law_commands_come_from_emoji_entries(pattern: Seq<char>, entries: Seq<(Seq<char>, u8, Seq<char>)>)
    ensures
        listed_commands(pattern, entries).len() <= entries.len(),
        forall|i: int|
            0 <= i < listed_commands(pattern, entries).len() ==> {
                let c = #[trigger] listed_commands(pattern, entries)[i];
                let low = lowercase(regex_replace(pattern, c.0, Seq::empty()));
                &&& regex_is_match(pattern, c.0)
                &&& exists|k: int|
                    0 <= k < entries.len() && (#[trigger] entries[k]).0 == c.0 && entries[k].1 == 2
                        && entries[k].2 == c.2
                &&& c.1.len() == low.len()
                &&& forall|j: int|
                    0 <= j < low.len() ==> #[trigger] c.1[j] == (if low[j] == ' ' {
                        '_'
                    } else {
                        low[j]
                    })
            },
    decreases entries.len(),
{
    if entries.len() > 0 {
        let prev = entries.drop_last();
        let pc = listed_commands(pattern, prev);
        let cs = listed_commands(pattern, entries);
        law_commands_come_from_emoji_entries(pattern, prev);
        assert forall|i: int| 0 <= i < cs.len() implies {
            let c = #[trigger] cs[i];
            let low = lowercase(regex_replace(pattern, c.0, Seq::empty()));
            &&& regex_is_match(pattern, c.0)
            &&& exists|k: int|
                0 <= k < entries.len() && (#[trigger] entries[k]).0 == c.0 && entries[k].1 == 2
                    && entries[k].2 == c.2
            &&& c.1.len() == low.len()
            &&& forall|j: int|
                0 <= j < low.len() ==> #[trigger] c.1[j] == (if low[j] == ' ' {
                    '_'
                } else {
                    low[j]
                })
        } by {
            if i < pc.len() {
                assert(cs[i] == pc[i]);
                let k = choose|k: int|
                    0 <= k < prev.len() && (#[trigger] prev[k]).0 == pc[i].0 && prev[k].1 == 2
                        && prev[k].2 == pc[i].2;
                assert(prev[k] == entries[k]);
            } else {
                assert(entries[entries.len() - 1] == entries.last());
            }
        }
    }
}

/// Every entry whose key matches the pattern and that has error text gives a command
/// with that label and that error text.
pub proof fn law_every_emoji_entry_gives_a_command(
    pattern: Seq<char>,
    entries: Seq<(Seq<char>, u8, Seq<char>)>,
)
    ensures
        forall|k: int|
            0 <= k < entries.len() && regex_is_match(pattern, (#[trigger] entries[k]).0)
                && entries[k].1 == 2 ==> exists|i: int|
                0 <= i < listed_commands(pattern, entries).len() && (#[trigger] listed_commands(
                    pattern,
                    entries,
                )[i]).0 == entries[k].0 && listed_commands(pattern, entries)[i].2 == entries[k].2,
    decreases entries.len(),
{
    if entries.len() > 0 {
        let prev = entries.drop_last();
        let pc = listed_commands(pattern, prev);
        let cs = listed_commands(pattern, entries);
        law_every_emoji_entry_gives_a_command(pattern, prev);
        assert forall|k: int|
            0 <= k < entries.len() && regex_is_match(pattern, (#[trigger] entries[k]).0)
                && entries[k].1 == 2 implies exists|i: int|
                0 <= i < cs.len() && (#[trigger] cs[i]).0 == entries[k].0 && cs[i].2
                    == entries[k].2 by {
            if k < prev.len() {
                assert(prev[k] == entries[k]);
                let i = choose|i: int|
                    0 <= i < pc.len() && (#[trigger] pc[i]).0 == prev[k].0 && pc[i].2 == prev[k].2;
                assert(cs[i] == pc[i]);
            } else {
                assert(entries[k] == entries.last());
                assert(cs[cs.len() - 1].0 == entries[k].0);
            }
        }
    }
}

/// Commands come in the order of the entries they come from: of two commands, the
/// earlier one has the label of an earlier entry.
pub proof fn law_commands_keep_entry_order(
    pattern: Seq<char>,
    entries: Seq<(Seq<char>, u8, Seq<char>)>,
)
    ensures
        forall|i: int, j: int|
            #![trigger listed_commands(pattern, entries)[i], listed_commands(pattern, entries)[j]]
            0 <= i < j < listed_commands(pattern, entries).len() ==> exists|k1: int, k2: int|
                #![trigger entries[k1], entries[k2]]
                0 <= k1 < k2 < entries.len() && entries[k1].0 == listed_commands(pattern, entries)[i].0
                    && entries[k2].0 == listed_commands(pattern, entries)[j].0,
    decreases entries.len(),
{
    if entries.len() > 0 {
        let prev = entries.drop_last();
        let pc = listed_commands(pattern, prev);
        let cs = listed_commands(pattern, entries);
        law_commands_keep_entry_order(pattern, prev);
        law_commands_come_from_emoji_entries(pattern, prev);
        assert forall|i: int, j: int| #![trigger cs[i], cs[j]] 0 <= i < j < cs.len() implies exists|k1: int, k2: int|
            #![trigger entries[k1], entries[k2]]
            0 <= k1 < k2 < entries.len() && entries[k1].0 == cs[i].0 && entries[k2].0 == cs[j].0 by {
            assert(cs[i] == pc[i]);
            if j < pc.len() {
                assert(cs[j] == pc[j]);
                let (k1, k2) = choose|k1: int, k2: int|
                    #![trigger prev[k1], prev[k2]]
                    0 <= k1 < k2 < prev.len() && prev[k1].0 == pc[i].0 && prev[k2].0 == pc[j].0;
                assert(prev[k1] == entries[k1] && prev[k2] == entries[k2]);
            } else {
                let c = pc[i];
                let k1 = choose|k: int|
                    0 <= k < prev.len() && (#[trigger] prev[k]).0 == c.0 && prev[k].1 == 2
                        && prev[k].2 == c.2;
                assert(prev[k1] == entries[k1]);
                assert(entries[entries.len() - 1] == entries.last());
            }
        }
    }
}

} // verus!
