//! Where the linter's configuration file is found, and which rules it
//! switches on.
//!
//! A directory is described by the names of the files it holds; which
//! directories exist and what they hold is read by the caller.  The choice of
//! the file is made here, in a fixed order of preference: the canonical names
//! in the target directory, then in the base directory, then the legacy name in
//! the target directory, then in the base directory, and last the canonical
//! name in the base directory, where a new file would be created.

use vstd::prelude::*;

use crate::ignore::pattern_views;
use crate::rules::{RuleIgnore, RulesConfig};
use crate::text::{
    chars_of, has_prefix, owned, slice_chars, str_eq, string_from_chars, trim, trim_spec,
};

verus! {

/// The current configuration file names, most preferred first.
pub open spec fn primary_names() -> Seq<Seq<char>> {
    seq!["gobject-linter.toml"@, ".gobject-linter.toml"@]
}

/// The configuration file names of earlier releases, still read.
pub open spec fn legacy_names() -> Seq<Seq<char>> {
    seq!["goblint.toml"@]
}

/// Every name a configuration file can have, most preferred first.
pub open spec fn all_names() -> Seq<Seq<char>> {
    primary_names() + legacy_names()
}

/// The views of the names in a directory listing.
pub open spec fn listing_view(entries: Seq<String>) -> Seq<Seq<char>> {
    entries.map_values(|s: String| s@)
}

/// The first of `names` that `listing` holds.
pub open spec fn first_listed(names: Seq<Seq<char>>, listing: Seq<Seq<char>>) -> Option<Seq<char>>
    decreases names.len(),
{
    if names.len() == 0 {
        None
    } else if listing.contains(names[0]) {
        Some(names[0])
    } else {
        first_listed(names.drop_first(), listing)
    }
}

/// Where the configuration comes from.
#[derive(Clone, Debug, PartialEq, Eq)]
pub enum ConfigPath {
    /// The file that was named explicitly.
    Explicit,
    /// The file of this name in the target directory.
    InTarget(String),
    /// The file of this name in the base directory.
    InBase(String),
}

/// What a [`ConfigPath`] stands for.
pub enum ConfigPathView {
    Explicit,
    InTarget(Seq<char>),
    InBase(Seq<char>),
}

impl ConfigPath {
    pub open spec fn view(&self) -> ConfigPathView {
        match self {
            ConfigPath::Explicit => ConfigPathView::Explicit,
            ConfigPath::InTarget(n) => ConfigPathView::InTarget(n@),
            ConfigPath::InBase(n) => ConfigPathView::InBase(n@),
        }
    }
}

/// The configuration file that is found from a target and a base directory
/// when none is named explicitly.
pub open spec fn discovered(target: Seq<Seq<char>>, base: Seq<Seq<char>>) -> ConfigPathView {
    match first_listed(primary_names(), target) {
        Some(n) => ConfigPathView::InTarget(n),
        None => match first_listed(primary_names(), base) {
            Some(n) => ConfigPathView::InBase(n),
            None => match first_listed(legacy_names(), target) {
                Some(n) => ConfigPathView::InTarget(n),
                None => match first_listed(legacy_names(), base) {
                    Some(n) => ConfigPathView::InBase(n),
                    None => ConfigPathView::InBase(primary_names()[0]),
                },
            },
        },
    }
}

/// What resolution gives: with an explicit file, that file if it exists and
/// an error naming it if not; otherwise the discovered file.
pub open spec fn resolution(
    target: Seq<Seq<char>>,
    base: Seq<Seq<char>>,
    explicit: Option<bool>,
) -> Result<ConfigPathView, ConfigPathView> {
    match explicit {
        Some(true) => Ok(ConfigPathView::Explicit),
        Some(false) => Err(ConfigPathView::Explicit),
        None => Ok(discovered(target, base)),
    }
}

/// The current configuration file names, most preferred first.
pub fn config_filenames() -> (r: Vec<String>)
    ensures
        listing_view(r@) == primary_names(),
{
    let mut r: Vec<String> = Vec::new();
    r.push(owned("gobject-linter.toml"));
    r.push(owned(".gobject-linter.toml"));
    assert(listing_view(r@) =~= primary_names());
    r
}

/// The configuration file names of earlier releases.
pub fn legacy_config_filenames() -> (r: Vec<String>)
    ensures
        listing_view(r@) == legacy_names(),
{
    let mut r: Vec<String> = Vec::new();
    r.push(owned("goblint.toml"));
    assert(listing_view(r@) =~= legacy_names());
    r
}

/// Whether `entries` holds a file called `name`.
pub fn lists(entries: &Vec<String>, name: &str) -> (r: bool)
    ensures
        r == listing_view(entries@).contains(name@),
{
    let mut i: usize = 0;
    while i < entries.len()
        invariant
            i <= entries@.len(),
            forall|j: int| 0 <= j < i ==> entries@[j]@ != name@,
        decreases entries@.len() - i,
    {
        if str_eq(entries[i].as_str(), name) {
            assert(listing_view(entries@)[i as int] == name@);
            return true;
        }
        i = i + 1;
    }
    assert forall|j: int| 0 <= j < listing_view(entries@).len() implies listing_view(
        entries@,
    )[j] != name@ by {
        assert(listing_view(entries@)[j] == entries@[j]@);
    }
    false
}

/// The first of `names` that `entries` holds.
fn first_in(names: &Vec<String>, entries: &Vec<String>) -> (r: Option<String>)
    ensures
        match r {
            Some(n) => first_listed(listing_view(names@), listing_view(entries@)) == Some(n@),
            None => first_listed(listing_view(names@), listing_view(entries@)) is None,
        },
{
    let ghost all = listing_view(names@);
    let ghost listing = listing_view(entries@);
    let mut i: usize = 0;
    assert(all.skip(0) =~= all);
    while i < names.len()
        invariant
            i <= names@.len(),
            all == listing_view(names@),
            listing == listing_view(entries@),
            first_listed(all, listing) == first_listed(all.skip(i as int), listing),
        decreases names@.len() - i,
    {
        proof {
            let rest = all.skip(i as int);
            assert(rest[0] == names@[i as int]@);
            assert(rest.drop_first() =~= all.skip(i + 1));
        }
        if lists(entries, names[i].as_str()) {
            return Some(names[i].clone());
        }
        i = i + 1;
    }
    assert(all.skip(i as int).len() == 0);
    None
}

/// Whether a directory holding `entries` has a configuration file under any
/// of its names.
pub fn has_config_file(entries: &Vec<String>) -> (r: bool)
    ensures
        r == (first_listed(all_names(), listing_view(entries@)) is Some),
{
    resolve_config_in_dir(entries).is_some()
}

/// The configuration file of a directory holding `entries`: the first of its
/// names, in order of preference, that the directory holds.
pub fn resolve_config_in_dir(entries: &Vec<String>) -> (r: Option<String>)
    ensures
        match r {
            Some(n) => first_listed(all_names(), listing_view(entries@)) == Some(n@),
            None => first_listed(all_names(), listing_view(entries@)) is None,
        },
{
    let mut names = config_filenames();
    let mut legacy = legacy_config_filenames();
    names.append(&mut legacy);
    assert(listing_view(names@) =~= all_names());
    first_in(&names, entries)
}

/// Resolves the configuration file.  `explicit` is `None` where no file was
/// named, and otherwise says whether the named file exists; `target` and
/// `base` list the files of the target and base directories.
pub fn resolve_config_path(target: &Vec<String>, base: &Vec<String>, explicit: Option<bool>) -> (r:
    Result<ConfigPath, ConfigPath>)
    ensures
        match r {
            Ok(p) => resolution(listing_view(target@), listing_view(base@), explicit) == Ok::<
                ConfigPathView,
                ConfigPathView,
            >(p.view()),
            Err(p) => resolution(listing_view(target@), listing_view(base@), explicit) == Err::<
                ConfigPathView,
                ConfigPathView,
            >(p.view()),
        },
{
    match explicit {
        Some(true) => return Ok(ConfigPath::Explicit),
        Some(false) => return Err(ConfigPath::Explicit),
        None => {},
    }
    let primary = config_filenames();
    let legacy = legacy_config_filenames();
    match first_in(&primary, target) {
        Some(n) => return Ok(ConfigPath::InTarget(n)),
        None => {},
    }
    match first_in(&primary, base) {
        Some(n) => return Ok(ConfigPath::InBase(n)),
        None => {},
    }
    match first_in(&legacy, target) {
        Some(n) => return Ok(ConfigPath::InTarget(n)),
        None => {},
    }
    match first_in(&legacy, base) {
        Some(n) => return Ok(ConfigPath::InBase(n)),
        None => {},
    }
    let default = owned("gobject-linter.toml");
    Ok(ConfigPath::InBase(default))
}


// ---------------------------------------------------------------------------
// Reading which rules are switched on from the configuration file
// ---------------------------------------------------------------------------

/// Every rule switched on: what holds before the file says otherwise.
pub open spec fn all_rules_on() -> RulesConfig {
    RulesConfig {
        function_visibility: true,
        deprecated_add_private: true,
        use_g_autolist: true,
        use_g_new: true,
        use_g_set_object: true,
        use_g_variant_new_typed: true,
        use_pragma_once: true,
        g_param_spec_static_strings: true,
        use_g_ascii_functions: true,
        use_g_clear_handle_id: true,
        use_g_clear_signal_handler: true,
        use_g_str_has_prefix_suffix: true,
        use_g_strlcpy: true,
    }
}

/// The names of the rules that the configuration switches, in a fixed order.
pub open spec fn rule_names() -> Seq<Seq<char>> {
    seq![
        "function_visibility"@,
        "deprecated_add_private"@,
        "use_g_autolist"@,
        "use_g_new"@,
        "use_g_set_object"@,
        "use_g_variant_new_typed"@,
        "use_pragma_once"@,
        "g_param_spec_static_strings"@,
        "use_g_ascii_functions"@,
        "use_g_clear_handle_id"@,
        "use_g_clear_signal_handler"@,
        "use_g_str_has_prefix_suffix"@,
        "use_g_strlcpy"@,
    ]
}

/// Where `name` stands among `rule_names()`, or `-1`.
pub open spec fn rule_index(name: Seq<char>) -> int {
    if name == "function_visibility"@ {
        0
    } else if name == "deprecated_add_private"@ {
        1
    } else if name == "use_g_autolist"@ {
        2
    } else if name == "use_g_new"@ {
        3
    } else if name == "use_g_set_object"@ {
        4
    } else if name == "use_g_variant_new_typed"@ {
        5
    } else if name == "use_pragma_once"@ {
        6
    } else if name == "g_param_spec_static_strings"@ {
        7
    } else if name == "use_g_ascii_functions"@ {
        8
    } else if name == "use_g_clear_handle_id"@ {
        9
    } else if name == "use_g_clear_signal_handler"@ {
        10
    } else if name == "use_g_str_has_prefix_suffix"@ {
        11
    } else if name == "use_g_strlcpy"@ {
        12
    } else {
        -1
    }
}

/// `c` with the rule at index `k` of `rule_names()` switched to `on`;
/// unchanged for any other `k`.
pub open spec fn set_rule_at(c: RulesConfig, k: int, on: bool) -> RulesConfig {
    if k == 0 {
        RulesConfig { function_visibility: on, ..c }
    } else if k == 1 {
        RulesConfig { deprecated_add_private: on, ..c }
    } else if k == 2 {
        RulesConfig { use_g_autolist: on, ..c }
    } else if k == 3 {
        RulesConfig { use_g_new: on, ..c }
    } else if k == 4 {
        RulesConfig { use_g_set_object: on, ..c }
    } else if k == 5 {
        RulesConfig { use_g_variant_new_typed: on, ..c }
    } else if k == 6 {
        RulesConfig { use_pragma_once: on, ..c }
    } else if k == 7 {
        RulesConfig { g_param_spec_static_strings: on, ..c }
    } else if k == 8 {
        RulesConfig { use_g_ascii_functions: on, ..c }
    } else if k == 9 {
        RulesConfig { use_g_clear_handle_id: on, ..c }
    } else if k == 10 {
        RulesConfig { use_g_clear_signal_handler: on, ..c }
    } else if k == 11 {
        RulesConfig { use_g_str_has_prefix_suffix: on, ..c }
    } else if k == 12 {
        RulesConfig { use_g_strlcpy: on, ..c }
    } else {
        c
    }
}

/// `c` with the rule called `name` switched to `on`; unchanged for a name
/// that is no rule.
pub open spec fn set_rule(c: RulesConfig, name: Seq<char>, on: bool) -> RulesConfig {
    set_rule_at(c, rule_index(name), on)
}

/// The table that the line opens: the trimmed text between `[` and `]`.
pub open spec fn section_of(line: Seq<char>) -> Option<Seq<char>> {
    let t = trim_spec(line);
    if t.len() >= 2 && t[0] == '[' && t[t.len() - 1] == ']' {
        Some(trim_spec(t.subrange(1, t.len() - 1)))
    } else {
        None
    }
}

/// Where `c` first stands in `s` at or after `i`, or the length of `s`.
pub open spec fn index_of(s: Seq<char>, c: char, i: int) -> int
    decreases s.len() - i,
{
    if i < 0 || i >= s.len() {
        s.len() as int
    } else if s[i] == c {
        i
    } else {
        index_of(s, c, i + 1)
    }
}

/// The key and the value of a `key = value` line, each trimmed.
pub open spec fn key_value(line: Seq<char>) -> Option<(Seq<char>, Seq<char>)> {
    let k = index_of(line, '=', 0);
    if k < line.len() {
        Some((trim_spec(line.take(k)), trim_spec(line.skip(k + 1))))
    } else {
        None
    }
}

/// The switch that a value writes: `true` or `false`.
pub open spec fn switch_value(v: Seq<char>) -> Option<bool> {
    if v == "true"@ {
        Some(true)
    } else if v == "false"@ {
        Some(false)
    } else {
        None
    }
}

/// The switches and the current table after `line`: a `[table]` line makes
/// `table` current; under `[rules]`, `name = true|false` switches the rule
/// `name`; under `[rules.name]`, `enabled = true|false` does.  Every other
/// line changes nothing.
pub open spec fn config_line(c: RulesConfig, table: Seq<char>, line: Seq<char>) -> (RulesConfig, Seq<char>) {
    match section_of(line) {
        Some(t) => (c, t),
        None => match key_value(line) {
            Some((k, v)) => match switch_value(v) {
                Some(on) => if table == "rules"@ {
                    (set_rule(c, k, on), table)
                } else if has_prefix(table, "rules."@) && k == "enabled"@ {
                    (set_rule(c, table.skip(6), on), table)
                } else {
                    (c, table)
                },
                None => (c, table),
            },
            None => (c, table),
        },
    }
}

/// The switches, the current table and the unfinished line after reading `s`.
pub open spec fn config_scan(s: Seq<char>) -> (RulesConfig, Seq<char>, Seq<char>)
    decreases s.len(),
{
    if s.len() == 0 {
        (all_rules_on(), Seq::empty(), Seq::empty())
    } else {
        let (c, table, cur) = config_scan(s.drop_last());
        if s.last() == '\n' {
            let (c2, t2) = config_line(c, table, cur);
            (c2, t2, Seq::empty())
        } else {
            (c, table, cur.push(s.last()))
        }
    }
}

/// Which rules the configuration file `text` switches on: all of them, but
/// for those that its lines switch off (see `config_line`), line by line.
pub open spec fn rules_config_of(text: Seq<char>) -> RulesConfig {
    let (c, table, cur) = config_scan(text);
    config_line(c, table, cur).0
}

/// Where `name` stands among the rule names (see `rule_index`).
#[verifier::rlimit(40)]
fn rule_index_of(name: &str) -> (r: Option<usize>)
    ensures
        match r {
            Some(k) => rule_index(name@) == k,
            None => rule_index(name@) == -1,
        },
{
    if str_eq(name, "function_visibility") {
        return Some(0);
    }
    if str_eq(name, "deprecated_add_private") {
        return Some(1);
    }
    if str_eq(name, "use_g_autolist") {
        return Some(2);
    }
    if str_eq(name, "use_g_new") {
        return Some(3);
    }
    if str_eq(name, "use_g_set_object") {
        return Some(4);
    }
    if str_eq(name, "use_g_variant_new_typed") {
        return Some(5);
    }
    if str_eq(name, "use_pragma_once") {
        return Some(6);
    }
    if str_eq(name, "g_param_spec_static_strings") {
        return Some(7);
    }
    if str_eq(name, "use_g_ascii_functions") {
        return Some(8);
    }
    if str_eq(name, "use_g_clear_handle_id") {
        return Some(9);
    }
    if str_eq(name, "use_g_clear_signal_handler") {
        return Some(10);
    }
    if str_eq(name, "use_g_str_has_prefix_suffix") {
        return Some(11);
    }
    if str_eq(name, "use_g_strlcpy") {
        return Some(12);
    }
    None
}

/// `c` with the rule at index `k` switched to `on` (see `set_rule_at`).
fn with_rule_at(c: RulesConfig, k: usize, on: bool) -> (r: RulesConfig)
    ensures
        r == set_rule_at(c, k as int, on),
{
    if k == 0 {
        RulesConfig { function_visibility: on, ..c }
    } else if k == 1 {
        RulesConfig { deprecated_add_private: on, ..c }
    } else if k == 2 {
        RulesConfig { use_g_autolist: on, ..c }
    } else if k == 3 {
        RulesConfig { use_g_new: on, ..c }
    } else if k == 4 {
        RulesConfig { use_g_set_object: on, ..c }
    } else if k == 5 {
        RulesConfig { use_g_variant_new_typed: on, ..c }
    } else if k == 6 {
        RulesConfig { use_pragma_once: on, ..c }
    } else if k == 7 {
        RulesConfig { g_param_spec_static_strings: on, ..c }
    } else if k == 8 {
        RulesConfig { use_g_ascii_functions: on, ..c }
    } else if k == 9 {
        RulesConfig { use_g_clear_handle_id: on, ..c }
    } else if k == 10 {
        RulesConfig { use_g_clear_signal_handler: on, ..c }
    } else if k == 11 {
        RulesConfig { use_g_str_has_prefix_suffix: on, ..c }
    } else if k == 12 {
        RulesConfig { use_g_strlcpy: on, ..c }
    } else {
        c
    }
}

/// Switches the rule called `name` to `on` (see `set_rule`).
pub fn set_rule_switch(c: &mut RulesConfig, name: &str, on: bool)
    ensures
        *final(c) == set_rule(*old(c), name@, on),
{
    match rule_index_of(name) {
        Some(k) => {
            *c = with_rule_at(*c, k, on);
        },
        None => {},
    }
}

/// The table that `line` opens (see `section_of`).
fn line_section(line: &str) -> (r: Option<String>)
    ensures
        match r {
            Some(t) => section_of(line@) == Some(t@),
            None => section_of(line@) is None,
        },
{
    let t = trim(line);
    let x = chars_of(t.as_str());
    if x.len() >= 2 && x[0] == '[' && x[x.len() - 1] == ']' {
        let inner = slice_chars(&x, 1, x.len() - 1);
        let s = string_from_chars(inner.as_slice());
        Some(trim(s.as_str()))
    } else {
        None
    }
}

/// The key and value of a `key = value` line (see `key_value`).
fn line_key_value(line: &str) -> (r: Option<(String, String)>)
    ensures
        match r {
            Some((k, v)) => key_value(line@) == Some((k@, v@)),
            None => key_value(line@) is None,
        },
{
    let x = chars_of(line);
    let mut i: usize = 0;
    while i < x.len() && x[i] != '='
        invariant
            x@ == line@,
            i <= x@.len(),
            index_of(x@, '=', 0) == index_of(x@, '=', i as int),
        decreases x@.len() - i,
    {
        i = i + 1;
    }
    if i == x.len() {
        return None;
    }
    let head = slice_chars(&x, 0, i);
    let tail = slice_chars(&x, i + 1, x.len());
    assert(head@ =~= line@.take(i as int));
    assert(tail@ =~= line@.skip(i + 1));
    let k = trim(string_from_chars(head.as_slice()).as_str());
    let v = trim(string_from_chars(tail.as_slice()).as_str());
    Some((k, v))
}

/// Applies one line of the configuration file (see `config_line`).
fn apply_config_line(c: &mut RulesConfig, table: &mut String, line: &str)
    ensures
        (*final(c), final(table)@) == config_line(*old(c), old(table)@, line@),
{
    proof {
        reveal_strlit("rules");
        reveal_strlit("rules.");
        reveal_strlit("enabled");
        reveal_strlit("true");
        reveal_strlit("false");
    }
    match line_section(line) {
        Some(t) => {
            *table = t;
        },
        None => match line_key_value(line) {
            Some((k, v)) => {
                let on = if str_eq(v.as_str(), "true") {
                    Some(true)
                } else if str_eq(v.as_str(), "false") {
                    Some(false)
                } else {
                    None
                };
                if let Some(on) = on {
                    if str_eq(table.as_str(), "rules") {
                        set_rule_switch(c, k.as_str(), on);
                    } else if crate::text::starts_with(table.as_str(), "rules.") && str_eq(k.as_str(), "enabled") {
                        let tx = chars_of(table.as_str());
                        let rest = slice_chars(&tx, 6, tx.len());
                        assert(rest@ =~= table@.skip(6));
                        let name = string_from_chars(rest.as_slice());
                        set_rule_switch(c, name.as_str(), on);
                    }
                }
            },
            None => {},
        },
    }
}

/// Which rules the configuration file `text` switches on (see
/// `rules_config_of`).
pub fn parse_rules_config(text: &str) -> (r: RulesConfig)
    ensures
        r == rules_config_of(text@),
{
    let x = chars_of(text);
    let mut c = RulesConfig::all_enabled();
    let mut table = String::new();
    let mut cur: Vec<char> = Vec::new();
    let mut i: usize = 0;
    assert(x@.take(0) =~= Seq::<char>::empty());
    while i < x.len()
        invariant
            x@ == text@,
            i <= x@.len(),
            config_scan(x@.take(i as int)) == (c, table@, cur@),
        decreases x@.len() - i,
    {
        assert(x@.take(i + 1).drop_last() =~= x@.take(i as int));
        assert(x@.take(i + 1).last() == x@[i as int]);
        if x[i] == '\n' {
            let line = string_from_chars(cur.as_slice());
            apply_config_line(&mut c, &mut table, line.as_str());
            cur = Vec::new();
        } else {
            cur.push(x[i]);
        }
        i = i + 1;
    }
    assert(x@.take(x@.len() as int) =~= x@);
    let line = string_from_chars(cur.as_slice());
    apply_config_line(&mut c, &mut table, line.as_str());
    c
}

// ---------------------------------------------------------------------------
// Reading the ignore patterns from the configuration file
// ---------------------------------------------------------------------------

/// The pieces of `s` between `,` characters.
pub open spec fn split_commas(s: Seq<char>) -> Seq<Seq<char>>
    decreases s.len(),
{
    if s.len() == 0 {
        seq![Seq::empty()]
    } else {
        let prev = split_commas(s.drop_last());
        if s.last() == ',' {
            prev.push(Seq::empty())
        } else {
            prev.update(prev.len() - 1, prev.last().push(s.last()))
        }
    }
}

/// `x` is written between double quotes.
pub open spec fn is_quoted(x: Seq<char>) -> bool {
    x.len() >= 2 && x[0] == '"' && x[x.len() - 1] == '"'
}

/// The strings of the pieces `ps`, trimmed, leaving out empty ones; none
/// when a piece is not a quoted string.
pub open spec fn quoted_items(ps: Seq<Seq<char>>) -> Option<Seq<Seq<char>>>
    decreases ps.len(),
{
    if ps.len() == 0 {
        Some(Seq::empty())
    } else {
        match quoted_items(ps.drop_last()) {
            Some(items) => {
                let t = trim_spec(ps.last());
                if t.len() == 0 {
                    Some(items)
                } else if is_quoted(t) {
                    Some(items.push(t.subrange(1, t.len() - 1)))
                } else {
                    None
                }
            },
            None => None,
        }
    }
}

/// The strings of a one-line array of strings, `["a", "b"]` (whose strings
/// hold no `,`); none for any other value.
pub open spec fn string_list(v: Seq<char>) -> Option<Seq<Seq<char>>> {
    let t = trim_spec(v);
    if t.len() >= 2 && t[0] == '[' && t[t.len() - 1] == ']' {
        quoted_items(split_commas(t.subrange(1, t.len() - 1)))
    } else {
        None
    }
}

/// The ignore patterns so far, the current table, and a line: at the top
/// level, `ignore = [...]` gives the patterns of files that are not linted
/// at all; under `[rules.name]` it gives the patterns of files whose reports
/// of that rule are dropped.
pub open spec fn ignore_line(
    global: Seq<Seq<char>>,
    per_rule: Seq<(Seq<char>, Seq<Seq<char>>)>,
    table: Seq<char>,
    line: Seq<char>,
) -> (Seq<Seq<char>>, Seq<(Seq<char>, Seq<Seq<char>>)>, Seq<char>) {
    match section_of(line) {
        Some(t) => (global, per_rule, t),
        None => match key_value(line) {
            Some((k, v)) => match string_list(v) {
                Some(ps) => if k == "ignore"@ && table.len() == 0 {
                    (ps, per_rule, table)
                } else if k == "ignore"@ && has_prefix(table, "rules."@) {
                    (global, per_rule.push((table.skip(6), ps)), table)
                } else {
                    (global, per_rule, table)
                },
                None => (global, per_rule, table),
            },
            None => (global, per_rule, table),
        },
    }
}

/// The ignore patterns, the current table and the unfinished line after
/// reading `s`.
pub open spec fn ignore_scan(s: Seq<char>) -> (Seq<Seq<char>>, Seq<(Seq<char>, Seq<Seq<char>>)>, Seq<char>, Seq<char>)
    decreases s.len(),
{
    if s.len() == 0 {
        (Seq::empty(), Seq::empty(), Seq::empty(), Seq::empty())
    } else {
        let (g, p, table, cur) = ignore_scan(s.drop_last());
        if s.last() == '\n' {
            let (g2, p2, t2) = ignore_line(g, p, table, cur);
            (g2, p2, t2, Seq::empty())
        } else {
            (g, p, table, cur.push(s.last()))
        }
    }
}

/// The ignore patterns that the configuration file `text` gives: those of
/// files not linted at all, and per rule those of files whose reports are
/// dropped, in the order of the file.
pub open spec fn ignores_of(text: Seq<char>) -> (Seq<Seq<char>>, Seq<(Seq<char>, Seq<Seq<char>>)>) {
    let (g, p, table, cur) = ignore_scan(text);
    let (g2, p2, t2) = ignore_line(g, p, table, cur);
    (g2, p2)
}

/// The view of a rule's ignore entry.
pub open spec fn rule_ignore_view(r: RuleIgnore) -> (Seq<char>, Seq<Seq<char>>) {
    (r.rule@, pattern_views(r.patterns@))
}

/// The pieces of `s` between commas (see `split_commas`).
fn split_at_commas(s: &str) -> (r: Vec<String>)
    ensures
        r@.map_values(|p: String| p@) == split_commas(s@),
{
    let x = chars_of(s);
    let mut out: Vec<String> = Vec::new();
    let mut cur: Vec<char> = Vec::new();
    let mut i: usize = 0;
    assert(x@.take(0) =~= Seq::<char>::empty());
    while i < x.len()
        invariant
            x@ == s@,
            i <= x@.len(),
            out@.map_values(|p: String| p@).push(cur@) == split_commas(x@.take(i as int)),
        decreases x@.len() - i,
    {
        assert(x@.take(i + 1).drop_last() =~= x@.take(i as int));
        assert(x@.take(i + 1).last() == x@[i as int]);
        let ghost prev = out@.map_values(|p: String| p@).push(cur@);
        if x[i] == ',' {
            let piece = string_from_chars(cur.as_slice());
            out.push(piece);
            cur = Vec::new();
            assert(out@.map_values(|p: String| p@).push(cur@) =~= prev.push(Seq::empty()));
        } else {
            cur.push(x[i]);
            assert(out@.map_values(|p: String| p@).push(cur@) =~= prev.update(
                prev.len() - 1,
                prev.last().push(x@[i as int]),
            ));
        }
        i = i + 1;
    }
    assert(x@.take(x@.len() as int) =~= x@);
    let last = string_from_chars(cur.as_slice());
    out.push(last);
    assert(out@.map_values(|p: String| p@) =~= split_commas(s@));
    out
}

proof fn lemma_quoted_items_none(ps: Seq<Seq<char>>, k: int)
    requires
        0 <= k <= ps.len(),
        quoted_items(ps.take(k)) is None,
    ensures
        quoted_items(ps) is None,
    decreases ps.len() - k,
{
    if k < ps.len() {
        assert(ps.take(k + 1).drop_last() =~= ps.take(k));
        lemma_quoted_items_none(ps, k + 1);
    } else {
        assert(ps.take(k) =~= ps);
    }
}

/// The strings of a one-line array of strings (see `string_list`).
fn parse_string_list(v: &str) -> (r: Option<Vec<String>>)
    ensures
        match r {
            Some(items) => string_list(v@) == Some(pattern_views(items@)),
            None => string_list(v@) is None,
        },
{
    let t = trim(v);
    let x = chars_of(t.as_str());
    if !(x.len() >= 2 && x[0] == '[' && x[x.len() - 1] == ']') {
        return None;
    }
    let inner = slice_chars(&x, 1, x.len() - 1);
    let inner_s = string_from_chars(inner.as_slice());
    let pieces = split_at_commas(inner_s.as_str());
    let ghost ps = pieces@.map_values(|p: String| p@);
    assert(inner_s@ =~= t@.subrange(1, t@.len() - 1));
    assert(string_list(v@) == quoted_items(ps));
    let mut items: Vec<String> = Vec::new();
    let mut i: usize = 0;
    assert(ps.take(0) =~= Seq::<Seq<char>>::empty());
    while i < pieces.len()
        invariant
            i <= pieces@.len(),
            ps == pieces@.map_values(|p: String| p@),
            string_list(v@) == quoted_items(ps),
            quoted_items(ps.take(i as int)) == Some(pattern_views(items@)),
        decreases pieces@.len() - i,
    {
        assert(ps.take(i + 1).drop_last() =~= ps.take(i as int));
        assert(ps.take(i + 1).last() == pieces@[i as int]@);
        let p = trim(pieces[i].as_str());
        let y = chars_of(p.as_str());
        if y.len() == 0 {
        } else if y.len() >= 2 && y[0] == '"' && y[y.len() - 1] == '"' {
            let body = slice_chars(&y, 1, y.len() - 1);
            let ghost before = pattern_views(items@);
            items.push(string_from_chars(body.as_slice()));
            assert(pattern_views(items@) =~= before.push(y@.subrange(1, y@.len() - 1)));
        } else {
            proof {
                assert(!is_quoted(y@));
                assert(quoted_items(ps.take(i + 1)) is None);
                lemma_quoted_items_none(ps, i + 1);
            }
            return None;
        }
        i = i + 1;
    }
    assert(ps.take(ps.len() as int) =~= ps);
    Some(items)
}

/// Applies one line of the configuration file to the ignore patterns (see
/// `ignore_line`).
fn apply_ignore_line(global: &mut Vec<String>, per_rule: &mut Vec<RuleIgnore>, table: &mut String, line: &str)
    ensures
        (pattern_views(final(global)@), final(per_rule)@.map_values(|r: RuleIgnore| rule_ignore_view(r)), final(table)@)
            == ignore_line(
            pattern_views(old(global)@),
            old(per_rule)@.map_values(|r: RuleIgnore| rule_ignore_view(r)),
            old(table)@,
            line@,
        ),
{
    proof {
        reveal_strlit("ignore");
        reveal_strlit("rules.");
    }
    match line_section(line) {
        Some(t) => {
            *table = t;
        },
        None => match line_key_value(line) {
            Some((k, v)) => match parse_string_list(v.as_str()) {
                Some(ps) => {
                    let top = chars_of(table.as_str()).len() == 0;
                    if str_eq(k.as_str(), "ignore") && top {
                        *global = ps;
                    } else if str_eq(k.as_str(), "ignore") && crate::text::starts_with(table.as_str(), "rules.") {
                        let tx = chars_of(table.as_str());
                        let rest = slice_chars(&tx, 6, tx.len());
                        assert(rest@ =~= table@.skip(6));
                        let name = string_from_chars(rest.as_slice());
                        let ghost before = per_rule@.map_values(|r: RuleIgnore| rule_ignore_view(r));
                        let entry = RuleIgnore { rule: name, patterns: ps };
                        per_rule.push(entry);
                        assert(per_rule@.map_values(|r: RuleIgnore| rule_ignore_view(r)) =~= before.push(
                            rule_ignore_view(entry),
                        ));
                    }
                },
                None => {},
            },
            None => {},
        },
    }
}

/// The ignore patterns that the configuration file `text` gives (see
/// `ignores_of`): those of files not linted at all, and those per rule.
pub fn parse_ignores(text: &str) -> (r: (Vec<String>, Vec<RuleIgnore>))
    ensures
        (pattern_views(r.0@), r.1@.map_values(|x: RuleIgnore| rule_ignore_view(x))) == ignores_of(text@),
{
    let x = chars_of(text);
    let mut global: Vec<String> = Vec::new();
    let mut per_rule: Vec<RuleIgnore> = Vec::new();
    let mut table = String::new();
    let mut cur: Vec<char> = Vec::new();
    let mut i: usize = 0;
    assert(x@.take(0) =~= Seq::<char>::empty());
    assert(pattern_views(global@) =~= Seq::<Seq<char>>::empty());
    assert(per_rule@.map_values(|r: RuleIgnore| rule_ignore_view(r)) =~= Seq::<(Seq<char>, Seq<Seq<char>>)>::empty());
    while i < x.len()
        invariant
            x@ == text@,
            i <= x@.len(),
            ignore_scan(x@.take(i as int)) == (
                pattern_views(global@),
                per_rule@.map_values(|r: RuleIgnore| rule_ignore_view(r)),
                table@,
                cur@,
            ),
        decreases x@.len() - i,
    {
        assert(x@.take(i + 1).drop_last() =~= x@.take(i as int));
        assert(x@.take(i + 1).last() == x@[i as int]);
        if x[i] == '\n' {
            let line = string_from_chars(cur.as_slice());
            apply_ignore_line(&mut global, &mut per_rule, &mut table, line.as_str());
            cur = Vec::new();
        } else {
            cur.push(x[i]);
        }
        i = i + 1;
    }
    assert(x@.take(x@.len() as int) =~= x@);
    let line = string_from_chars(cur.as_slice());
    apply_ignore_line(&mut global, &mut per_rule, &mut table, line.as_str());
    (global, per_rule)
}

} // verus!
