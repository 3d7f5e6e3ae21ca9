//! Command aliases: a name that stands for a longer command line, stored as a
//! YAML map and expanded in place of the name on the command line.
use vstd::prelude::*;

use crate::strmap::{
    find_key, insert_sorted, keys_sorted, lemma_map_view_insert, lemma_map_view_remove,
    lemma_map_view_update, map_view, replace_value,
};
use crate::text::{concat2, concat3, ends_with, ends_with_chars, owned, str_eq, to_chars};

verus! {

/// The pairs of a string map, as character sequences.
pub open spec fn pair_views(p: Seq<(String, String)>) -> Seq<(Seq<char>, Seq<char>)> {
    p.map_values(|e: (String, String)| (e.0@, e.1@))
}

/// The strings of a sequence, as character sequences.
pub open spec fn word_views(v: Seq<String>) -> Seq<Seq<char>> {
    v.map_values(|s: String| s@)
}

/// The map after inserting each pair in order; a later pair for a name wins.
pub open spec fn insert_all(m: Map<Seq<char>, Seq<char>>, p: Seq<(Seq<char>, Seq<char>)>) -> Map<
    Seq<char>,
    Seq<char>,
>
    decreases p.len(),
{
    if p.len() == 0 {
        m
    } else {
        insert_all(m, p.drop_last()).insert(p.last().0, p.last().1)
    }
}

/// The map that a sequence of pairs denotes.
pub open spec fn pairs_map(p: Seq<(Seq<char>, Seq<char>)>) -> Map<Seq<char>, Seq<char>> {
    insert_all(Map::empty(), p)
}

/// Command aliases, kept ordered by name.
pub struct AliasMap {
    entries: Vec<(String, String)>,
}

impl AliasMap {
    #[verifier::type_invariant]
    spec fn names_sorted(self) -> bool {
        keys_sorted(self.entries@)
    }
}

impl View for AliasMap {
    type V = Map<Seq<char>, Seq<char>>;

    closed spec fn view(&self) -> Map<Seq<char>, Seq<char>> {
        map_view(self.entries@, |s: String| s@)
    }
}

impl AliasMap {
    /// No aliases.
    pub fn new() -> (r: AliasMap)
        ensures
            r@ == Map::<Seq<char>, Seq<char>>::empty(),
    {
        let r = AliasMap { entries: Vec::new() };
        assert(r@ =~= Map::<Seq<char>, Seq<char>>::empty());
        r
    }

    /// The command that `name` stands for.
    pub fn get(&self, name: &str) -> (r: Option<String>)
        ensures
            match r {
                Some(c) => self@.dom().contains(name@) && self@[name@] == c@,
                None => !self@.dom().contains(name@),
            },
    {
        proof {
            use_type_invariant(self);
        }
        let k = to_chars(name);
        match find_key(&self.entries, &k) {
            Some(i) => {
                proof {
                    crate::strmap::lemma_key_index_unique(self.entries@, i as int, name@);
                }
                Some(self.entries[i].1.clone())
            },
            None => None,
        }
    }

    /// Sets the command of `name`, replacing any earlier one.
    pub fn insert(&mut self, name: String, command: String)
        ensures
            final(self)@ == old(self)@.insert(name@, command@),
    {
        proof {
            use_type_invariant(&*self);
        }
        let k = to_chars(name.as_str());
        let mut entries: Vec<(String, String)> = Vec::new();
        std::mem::swap(&mut entries, &mut self.entries);
        let ghost before = entries@;
        match find_key(&entries, &k) {
            Some(i) => {
                let _ = replace_value(&mut entries, i, command);
                proof {
                    lemma_map_view_update(before, i as int, command, |s: String| s@);
                    assert(before[i as int].0@ == name@);
                }
            },
            None => {
                insert_sorted(&mut entries, name, command);
                proof {
                    let p = choose|p: int|
                        0 <= p <= before.len() && entries@ == before.insert(p, (name, command));
                    lemma_map_view_insert(before, entries@, p, name, command, |s: String| s@);
                }
            },
        }
        self.entries = entries;
    }

    /// Removes `name`; whether it was there.
    pub fn remove(&mut self, name: &str) -> (r: bool)
        ensures
            r == old(self)@.dom().contains(name@),
            final(self)@ == old(self)@.remove(name@),
    {
        proof {
            use_type_invariant(&*self);
        }
        let k = to_chars(name);
        let mut entries: Vec<(String, String)> = Vec::new();
        std::mem::swap(&mut entries, &mut self.entries);
        let ghost before = entries@;
        let found = match find_key(&entries, &k) {
            Some(i) => {
                let _ = entries.remove(i);
                proof {
                    lemma_map_view_remove(before, i as int, |s: String| s@);
                    assert(map_view(before, |s: String| s@).dom().contains(name@));
                }
                true
            },
            None => {
                assert(map_view(before, |s: String| s@).remove(name@) =~= map_view(
                    before,
                    |s: String| s@,
                ));
                false
            },
        };
        self.entries = entries;
        found
    }

    /// Whether there are no aliases.
    pub fn is_empty(&self) -> (r: bool)
        ensures
            r == (self@ == Map::<Seq<char>, Seq<char>>::empty()),
    {
        proof {
            use_type_invariant(self);
        }
        if self.entries.len() == 0 {
            assert(self@ =~= Map::<Seq<char>, Seq<char>>::empty());
            true
        } else {
            assert(self@.dom().contains(self.entries@[0].0@));
            false
        }
    }

    /// The aliases as (name, command) pairs in increasing name order.
    pub fn pairs(&self) -> (r: Vec<(String, String)>)
        ensures
            keys_sorted(r@),
            map_view(r@, |s: String| s@) == self@,
    {
        proof {
            use_type_invariant(self);
        }
        let mut r: Vec<(String, String)> = Vec::new();
        let mut i: usize = 0;
        while i < self.entries.len()
            invariant
                i <= self.entries@.len(),
                keys_sorted(self.entries@),
                r@.len() == i,
                forall|j: int| 0 <= j < i ==> #[trigger] r@[j] == self.entries@[j],
            decreases self.entries@.len() - i,
        {
            let name = self.entries[i].0.clone();
            let command = self.entries[i].1.clone();
            r.push((name, command));
            i += 1;
        }
        assert(r@ =~= self.entries@);
        r
    }

    /// The aliases that a sequence of pairs denotes; a later pair for a name wins.
    pub fn from_pairs(pairs: Vec<(String, String)>) -> (r: AliasMap)
        ensures
            r@ == pairs_map(pair_views(pairs@)),
    {
        let mut r = AliasMap::new();
        let mut i: usize = 0;
        while i < pairs.len()
            invariant
                i <= pairs@.len(),
                r@ == pairs_map(pair_views(pairs@).take(i as int)),
            decreases pairs@.len() - i,
        {
            let ghost p = pair_views(pairs@);
            assert(p.take(i + 1).drop_last() =~= p.take(i as int));
            let name = pairs[i].0.clone();
            let command = pairs[i].1.clone();
            r.insert(name, command);
            i += 1;
        }
        assert(pair_views(pairs@).take(pairs@.len() as int) =~= pair_views(pairs@));
        r
    }
}

/// What `serde_norway::from_str` makes of a YAML text read as a map from
/// strings to strings: its pairs in the map's order, or nothing when the text is
/// not such a map.
pub uninterp spec fn yaml_string_map(s: Seq<char>) -> Option<Seq<(Seq<char>, Seq<char>)>>;

/// What `serde_json::from_str` makes of a JSON text read as a map from strings
/// to strings: its pairs in the map's order, or nothing when the text is not
/// such an object.
pub uninterp spec fn json_string_map(s: Seq<char>) -> Option<Seq<(Seq<char>, Seq<char>)>>;

/// What `shell_words::split` makes of a command line: its words, split as a
/// POSIX shell does with quotes and escapes removed, or nothing when a quote is
/// left open or an escape inside double quotes ends the line (a backslash that
/// ends the line outside quotes is kept in the last word).
pub uninterp spec fn shell_split(s: Seq<char>) -> Option<Seq<Seq<char>>>;

/// `serde_norway::from_str::<BTreeMap<String, String>>`, its pairs in key order.
#[verifier::external_body]
fn parse_yaml_map(s: &str) -> (r: Option<Vec<(String, String)>>)
    ensures
        match r {
            Some(p) => yaml_string_map(s@) == Some(pair_views(p@)),
            None => yaml_string_map(s@) is None,
        },
{
    serde_norway::from_str::<std::collections::BTreeMap<String, String>>(s).ok().map(
        |m| m.into_iter().collect(),
    )
}

/// `serde_json::from_str::<BTreeMap<String, String>>`, its pairs in key order.
#[verifier::external_body]
fn parse_json_map(s: &str) -> (r: Option<Vec<(String, String)>>)
    ensures
        match r {
            Some(p) => json_string_map(s@) == Some(pair_views(p@)),
            None => json_string_map(s@) is None,
        },
{
    serde_json::from_str::<std::collections::BTreeMap<String, String>>(s).ok().map(
        |m| m.into_iter().collect(),
    )
}

/// `shell_words::split`.
#[verifier::external_body]
fn split_words(s: &str) -> (r: Option<Vec<String>>)
    ensures
        match r {
            Some(w) => shell_split(s@) == Some(word_views(w@)),
            None => shell_split(s@) is None,
        },
{
    shell_words::split(s).ok()
}

/// The aliases stored in a YAML text; none when the text is not a map of strings.
pub open spec fn stored_aliases(contents: Seq<char>) -> Map<Seq<char>, Seq<char>> {
    match yaml_string_map(contents) {
        Some(p) => pairs_map(p),
        None => Map::empty(),
    }
}

/// Reads the aliases stored in a YAML text (see [`stored_aliases`]).
pub fn aliases_from_yaml(contents: &str) -> (r: AliasMap)
    ensures
        r@ == stored_aliases(contents@),
{
    match parse_yaml_map(contents) {
        Some(p) => AliasMap::from_pairs(p),
        None => AliasMap::new(),
    }
}

/// `i` is the first position of `name` in `args`.
pub open spec fn is_first_pos(args: Seq<Seq<char>>, name: Seq<char>, i: int) -> bool {
    &&& 0 <= i < args.len()
    &&& args[i] == name
    &&& forall|j: int| 0 <= j < i ==> args[j] != name
}

/// `args` with its first `name` replaced by `tokens`; unchanged when `name` is
/// not among them.
pub open spec fn splice(args: Seq<Seq<char>>, name: Seq<char>, tokens: Seq<Seq<char>>) -> Seq<
    Seq<char>,
> {
    if exists|i: int| is_first_pos(args, name, i) {
        let i = choose|i: int| is_first_pos(args, name, i);
        args.take(i) + tokens + args.skip(i + 1)
    } else {
        args
    }
}

/// The arguments after expanding alias `name` in `args` with the aliases `m`:
/// unchanged unless `name` is an alias whose command splits into words.
pub open spec fn expansion(args: Seq<Seq<char>>, name: Seq<char>, m: Map<Seq<char>, Seq<char>>) -> Seq<
    Seq<char>,
> {
    if m.dom().contains(name) {
        match shell_split(m[name]) {
            Some(tokens) => splice(args, name, tokens),
            None => args,
        }
    } else {
        args
    }
}

fn copy_words(v: &[String], from: usize, to: usize, out: &mut Vec<String>)
    requires
        from <= to <= v@.len(),
    ensures
        word_views(final(out)@) == word_views(old(out)@) + word_views(v@).subrange(
            from as int,
            to as int,
        ),
{
    let ghost start = word_views(out@);
    let mut i: usize = from;
    while i < to
        invariant
            from <= i <= to <= v@.len(),
            word_views(out@) == start + word_views(v@).subrange(from as int, i as int),
        decreases to - i,
    {
        let w = v[i].clone();
        let ghost before = word_views(out@);
        out.push(w);
        assert(word_views(out@) =~= before.push(v@[i as int]@));
        assert(word_views(v@).subrange(from as int, i + 1) =~= word_views(v@).subrange(
            from as int,
            i as int,
        ).push(v@[i as int]@));
        assert(word_views(out@) =~= start + word_views(v@).subrange(from as int, i + 1));
        i += 1;
    }
}

/// Replaces the first `name` in `args` by `tokens` (see [`splice`]).
pub fn splice_expansion(args: &[String], name: &str, tokens: Vec<String>) -> (r: Vec<String>)
    ensures
        word_views(r@) == splice(word_views(args@), name@, word_views(tokens@)),
{
    let ghost a = word_views(args@);
    let mut i: usize = 0;
    while i < args.len()
        invariant
            i <= args@.len(),
            a == word_views(args@),
            forall|j: int| 0 <= j < i ==> a[j] != name@,
        decreases args@.len() - i,
    {
        if str_eq(args[i].as_str(), name) {
            assert(is_first_pos(a, name@, i as int));
            proof {
                let c = choose|c: int| is_first_pos(a, name@, c);
                assert(c == i) by {
                    if c < i {
                        assert(a[c] != name@);
                    }
                    if c > i {
                        assert(a[i as int] != name@);
                    }
                }
            }
            let mut out: Vec<String> = Vec::new();
            copy_words(args, 0, i, &mut out);
            copy_words(&tokens, 0, tokens.len(), &mut out);
            copy_words(args, i + 1, args.len(), &mut out);
            assert(a.subrange(0, i as int) =~= a.take(i as int));
            assert(word_views(tokens@).subrange(0, tokens@.len() as int) =~= word_views(tokens@));
            assert(a.subrange(i + 1, args@.len() as int) =~= a.skip(i + 1));
            assert(Seq::<Seq<char>>::empty() + a.take(i as int) =~= a.take(i as int));
            return out;
        }
        i += 1;
    }
    let mut out: Vec<String> = Vec::new();
    copy_words(args, 0, args.len(), &mut out);
    assert(a.subrange(0, args@.len() as int) =~= a);
    assert(Seq::<Seq<char>>::empty() + a =~= a);
    out
}

/// Rewrites `args` by replacing the first `name` token with the words of its
/// stored command (see [`expansion`]).
pub fn apply_expansion(args: &[String], name: &str, aliases: &AliasMap) -> (r: Vec<String>)
    ensures
        word_views(r@) == expansion(word_views(args@), name@, aliases@),
{
    match aliases.get(name) {
        None => args_copy(args),
        Some(command) => match split_words(command.as_str()) {
            None => args_copy(args),
            Some(tokens) => splice_expansion(args, name, tokens),
        },
    }
}

fn args_copy(args: &[String]) -> (r: Vec<String>)
    ensures
        word_views(r@) == word_views(args@),
{
    let mut out: Vec<String> = Vec::new();
    copy_words(args, 0, args.len(), &mut out);
    assert(word_views(args@).subrange(0, args@.len() as int) =~= word_views(args@));
    assert(Seq::<Seq<char>>::empty() + word_views(args@) =~= word_views(args@));
    out
}

/// Rewrites `args` by expanding alias `name` with the aliases stored in
/// `stored` (the YAML text of the alias file, when it could be read).
/// A built-in command is never expanded, and the arguments come back
/// unchanged when the file is unreadable or holds no such alias.
pub fn expand(args: &[String], name: &str, builtin: bool, stored: Option<&str>) -> (r: Vec<String>)
    ensures
        word_views(r@) == if builtin {
            word_views(args@)
        } else {
            match stored {
                Some(contents) => expansion(word_views(args@), name@, stored_aliases(contents@)),
                None => word_views(args@),
            }
        },
{
    if builtin {
        return args_copy(args);
    }
    match stored {
        None => args_copy(args),
        Some(contents) => {
            let aliases = aliases_from_yaml(contents);
            apply_expansion(args, name, &aliases)
        },
    }
}

/// Why an alias operation was refused.
#[derive(Debug, PartialEq, Eq)]
pub enum AliasError {
    Builtin(String),
    NotFound(String),
    InvalidJson(String),
    InvalidYaml(String),
    NoAliases(String),
}

impl AliasError {
    /// The user-facing message.
    pub fn to_string(&self) -> (r: String)
        ensures
            r@ == match self {
                AliasError::Builtin(n) => "'"@ + n@
                    + "' is a built-in command and cannot be used as an alias name"@,
                AliasError::NotFound(n) => "alias not found: "@ + n@,
                AliasError::InvalidJson(f) => "failed to parse JSON from "@ + f@,
                AliasError::InvalidYaml(f) => "failed to parse YAML from "@ + f@,
                AliasError::NoAliases(f) => "no aliases found in "@ + f@,
            },
    {
        match self {
            AliasError::Builtin(n) => concat3(
                "'",
                n.as_str(),
                "' is a built-in command and cannot be used as an alias name",
            ),
            AliasError::NotFound(n) => concat2("alias not found: ", n.as_str()),
            AliasError::InvalidJson(f) => concat2("failed to parse JSON from ", f.as_str()),
            AliasError::InvalidYaml(f) => concat2("failed to parse YAML from ", f.as_str()),
            AliasError::NoAliases(f) => concat2("no aliases found in ", f.as_str()),
        }
    }
}

/// Sets alias `name` to `command`; a built-in command name is refused.
pub fn set_alias(aliases: &mut AliasMap, name: String, command: String, builtin: bool) -> (r: Result<
    (),
    AliasError,
>)
    ensures
        builtin ==> r == Err::<(), AliasError>(AliasError::Builtin(name)) && final(aliases)@ == old(
            aliases,
        )@,
        !builtin ==> r is Ok && final(aliases)@ == old(aliases)@.insert(name@, command@),
{
    if builtin {
        return Err(AliasError::Builtin(name));
    }
    aliases.insert(name, command);
    Ok(())
}

/// The aliases after removing each name in turn, or the first name that is not
/// (or no longer) an alias.
pub open spec fn delete_all(m: Map<Seq<char>, Seq<char>>, names: Seq<Seq<char>>) -> Result<
    Map<Seq<char>, Seq<char>>,
    Seq<char>,
>
    decreases names.len(),
{
    if names.len() == 0 {
        Ok(m)
    } else {
        match delete_all(m, names.drop_last()) {
            Ok(r) => if r.dom().contains(names.last()) {
                Ok(r.remove(names.last()))
            } else {
                Err(names.last())
            },
            Err(n) => Err(n),
        }
    }
}

/// Removes the aliases `names`, refusing the first one that is not an alias.
/// On refusal the aliases are left partly removed and are not to be kept.
pub fn delete_aliases(aliases: &mut AliasMap, names: &[String]) -> (r: Result<(), AliasError>)
    ensures
        match delete_all(old(aliases)@, word_views(names@)) {
            Ok(m) => r is Ok && final(aliases)@ == m,
            Err(n) => r matches Err(AliasError::NotFound(s)) && s@ == n,
        },
{
    let ghost start = aliases@;
    let ghost w = word_views(names@);
    let mut i: usize = 0;
    assert(w.take(0) =~= Seq::<Seq<char>>::empty());
    while i < names.len()
        invariant
            i <= names@.len(),
            w == word_views(names@),
            start == old(aliases)@,
            delete_all(start, w.take(i as int)) == Ok::<Map<Seq<char>, Seq<char>>, Seq<char>>(
                aliases@,
            ),
        decreases names@.len() - i,
    {
        assert(w.take(i + 1).drop_last() =~= w.take(i as int));
        assert(w.take(i + 1).last() == w[i as int]);
        let ghost cur = aliases@;
        if !aliases.remove(names[i].as_str()) {
            proof {
                assert(!cur.dom().contains(w[i as int]));
                assert(delete_all(start, w.take(i + 1)) == Err::<Map<Seq<char>, Seq<char>>, Seq<char>>(
                    w[i as int],
                ));
                lemma_delete_all_err(start, w, i as int);
            }
            let missing = names[i].clone();
            assert(missing@ == w[i as int]);
            return Err(AliasError::NotFound(missing));
        }
        i += 1;
    }
    assert(w.take(names@.len() as int) =~= w);
    Ok(())
}

proof fn lemma_delete_all_err(m: Map<Seq<char>, Seq<char>>, names: Seq<Seq<char>>, i: int)
    requires
        0 <= i < names.len(),
        delete_all(m, names.take(i + 1)) is Err,
    ensures
        delete_all(m, names) == delete_all(m, names.take(i + 1)),
    decreases names.len(),
{
    if names.len() == i + 1 {
        assert(names.take(i + 1) =~= names);
    } else {
        assert(names.drop_last().take(i + 1) =~= names.take(i + 1));
        lemma_delete_all_err(m, names.drop_last(), i);
    }
}

/// The pairs of an alias file: JSON when its name ends in `.json`, else YAML.
pub open spec fn imported_pairs(file: Seq<char>, contents: Seq<char>) -> Option<
    Seq<(Seq<char>, Seq<char>)>,
> {
    if ends_with(file, ".json"@) {
        json_string_map(contents)
    } else {
        yaml_string_map(contents)
    }
}

/// Adds the aliases of an alias file (`file` is its name, `contents` its text)
/// to `aliases`, its pairs winning over existing names; the number of aliases
/// the file holds. A file that does not parse, or holds none, is refused.
pub fn import_aliases(aliases: &mut AliasMap, file: &str, contents: &str) -> (r: Result<
    usize,
    AliasError,
>)
    ensures
        match imported_pairs(file@, contents@) {
            None => final(aliases)@ == old(aliases)@ && if ends_with(file@, ".json"@) {
                r matches Err(AliasError::InvalidJson(f)) && f@ == file@
            } else {
                r matches Err(AliasError::InvalidYaml(f)) && f@ == file@
            },
            Some(p) => if p.len() == 0 {
                r matches Err(AliasError::NoAliases(f)) && f@ == file@ && final(aliases)@ == old(
                    aliases,
                )@
            } else {
                r == Ok::<usize, AliasError>(p.len() as usize) && final(aliases)@ == insert_all(
                    old(aliases)@,
                    p,
                )
            },
        },
{
    let fc = to_chars(file);
    let json_suffix = to_chars(".json");
    let is_json = ends_with_chars(&fc, &json_suffix);
    let parsed = if is_json {
        parse_json_map(contents)
    } else {
        parse_yaml_map(contents)
    };
    let pairs = match parsed {
        None => {
            if is_json {
                return Err(AliasError::InvalidJson(owned(file)));
            } else {
                return Err(AliasError::InvalidYaml(owned(file)));
            }
        },
        Some(p) => p,
    };
    if pairs.len() == 0 {
        return Err(AliasError::NoAliases(owned(file)));
    }
    let ghost start = aliases@;
    let ghost p = pair_views(pairs@);
    let mut i: usize = 0;
    assert(p.take(0) =~= Seq::<(Seq<char>, Seq<char>)>::empty());
    while i < pairs.len()
        invariant
            i <= pairs@.len(),
            p == pair_views(pairs@),
            aliases@ == insert_all(start, p.take(i as int)),
        decreases pairs@.len() - i,
    {
        assert(p.take(i + 1).drop_last() =~= p.take(i as int));
        let name = pairs[i].0.clone();
        let command = pairs[i].1.clone();
        aliases.insert(name, command);
        i += 1;
    }
    assert(p.take(pairs@.len() as int) =~= p);
    Ok(pairs.len())
}

/// The lines that list the aliases: `name = command` in name order, or a note
/// that there are none.
pub fn alias_lines(aliases: &AliasMap) -> (r: Vec<String>)
    ensures
        exists|p: Seq<(String, String)>|
            keys_sorted(p) && map_view(p, |s: String| s@) == aliases@ && word_views(r@) == if p.len()
                == 0 {
                seq!["No aliases configured."@]
            } else {
                p.map_values(|e: (String, String)| e.0@ + " = "@ + e.1@)
            },
{
    let pairs = aliases.pairs();
    let mut lines: Vec<String> = Vec::new();
    if pairs.len() == 0 {
        lines.push(owned("No aliases configured."));
        assert(word_views(lines@) =~= seq!["No aliases configured."@]);
        return lines;
    }
    let ghost all = pairs@.map_values(|e: (String, String)| e.0@ + " = "@ + e.1@);
    let mut i: usize = 0;
    while i < pairs.len()
        invariant
            i <= pairs@.len(),
            all == pairs@.map_values(|e: (String, String)| e.0@ + " = "@ + e.1@),
            word_views(lines@) == all.take(i as int),
        decreases pairs@.len() - i,
    {
        let line = concat3(pairs[i].0.as_str(), " = ", pairs[i].1.as_str());
        let ghost before = word_views(lines@);
        lines.push(line);
        assert(word_views(lines@) =~= before.push(all[i as int]));
        assert(word_views(lines@) =~= all.take(i + 1));
        i += 1;
    }
    assert(all.take(pairs@.len() as int) =~= all);
    lines
}

/// An alias that the map does not hold leaves the arguments as they are.
pub proof fn law_unknown_alias_keeps_args(
    args: Seq<Seq<char>>,
    name: Seq<char>,
    m: Map<Seq<char>, Seq<char>>,
)
    requires
        !m.dom().contains(name),
    ensures
        expansion(args, name, m) == args,
{
}

/// Expanding keeps every argument before the alias and every argument after it,
/// and puts the alias's words in its place.
pub proof fn law_expansion_keeps_surrounding_args(
    args: Seq<Seq<char>>,
    name: Seq<char>,
    tokens: Seq<Seq<char>>,
    i: int,
)
    requires
        is_first_pos(args, name, i),
    ensures
        splice(args, name, tokens).take(i) == args.take(i),
        splice(args, name, tokens).subrange(i, i + tokens.len()) == tokens,
        splice(args, name, tokens).skip(i + tokens.len()) == args.skip(i + 1),
        splice(args, name, tokens).len() == args.len() - 1 + tokens.len(),
{
    let c = choose|c: int| is_first_pos(args, name, c);
    assert(c == i) by {
        if c < i {
            assert(args[c] != name);
        }
        if c > i {
            assert(args[i] != name);
        }
    }
    let s = splice(args, name, tokens);
    assert(s.take(i) =~= args.take(i));
    assert(s.subrange(i, i + tokens.len()) =~= tokens);
    assert(s.skip(i + tokens.len()) =~= args.skip(i + 1));
}

/// After an alias is set, it stands for the command that was set, and no other
/// alias changes.
pub proof fn law_set_then_get(
    m: Map<Seq<char>, Seq<char>>,
    name: Seq<char>,
    command: Seq<char>,
    other: Seq<char>,
)
    requires
        other != name,
    ensures
        m.insert(name, command)[name] == command,
        m.insert(name, command).dom().contains(other) == m.dom().contains(other),
        m.dom().contains(other) ==> m.insert(name, command)[other] == m[other],
{
}

/// Deleting an alias that was just set leaves the other aliases as they were.
pub proof fn law_delete_after_set(
    m: Map<Seq<char>, Seq<char>>,
    name: Seq<char>,
    command: Seq<char>,
)
    ensures
        delete_all(m.insert(name, command), seq![name]) == Ok::<
            Map<Seq<char>, Seq<char>>,
            Seq<char>,
        >(m.remove(name)),
{
    let names = seq![name];
    let big = m.insert(name, command);
    assert(names.drop_last() =~= Seq::<Seq<char>>::empty());
    assert(delete_all(big, Seq::<Seq<char>>::empty()) == Ok::<
        Map<Seq<char>, Seq<char>>,
        Seq<char>,
    >(big));
    assert(names.last() == name);
    assert(m.insert(name, command).remove(name) =~= m.remove(name));
}

} // verus!
