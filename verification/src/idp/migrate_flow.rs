//! The decisions of `pup idp migrate-schema` around the migration itself:
//! which files to migrate, whether to go on, what was migrated, and the summary.
use vstd::prelude::*;

use crate::idp::entity_query::views;
use crate::json::{jv, number_as_u64, number_u64, str_at, Json};
use crate::text::{
    ascii_lower, ascii_lower_chars, chars_eq, concat2, concat3, decimal, from_chars, slice_chars, str_eq, to_chars,
    to_lowercase, trim, trim_chars, unicode_lowercase, usize_to_string,
};

verus! {

/// Which of the catalog files found to migrate.
#[derive(Debug, PartialEq, Eq, Structural)]
pub enum FileChoice {
    /// All of them.
    All,
    /// The one at this position (from zero).
    One(usize),
}

/// A text read as `str::parse::<usize>` reads it: an optional `+`, then one or
/// more decimal digits whose value fits in a `usize`.
pub open spec fn usize_text(s: Seq<char>) -> Option<int> {
    let digits = if s.len() > 0 && s[0] == '+' {
        s.drop_first()
    } else {
        s
    };
    match number_u64(digits) {
        Some(n) => if n <= usize::MAX {
            Some(n)
        } else {
            None
        },
        None => None,
    }
}

/// The answer to "Enter number to migrate one, or \"all\"": `all` in any
/// ASCII case, or a number from 1 to `found`.
pub open spec fn file_choice(found: int, choice: Seq<char>) -> Result<FileChoice, Seq<char>> {
    if ascii_lower(choice) == "all"@ {
        Ok(FileChoice::All)
    } else {
        match usize_text(choice) {
            None => Err("invalid choice '"@ + choice + "'"@),
            Some(n) => if n == 0 || n > found {
                Err("choice "@ + decimal(n) + " out of range (1–"@ + decimal(found) + ")"@)
            } else {
                Ok(FileChoice::One((n - 1) as usize))
            },
        }
    }
}

fn parse_usize(s: &[char]) -> (r: Option<usize>)
    ensures
        match r {
            Some(n) => usize_text(s@) == Some(n as int),
            None => usize_text(s@) is None,
        },
{
    let digits = if s.len() > 0 && s[0] == '+' {
        slice_chars(s, 1, s.len())
    } else {
        slice_chars(s, 0, s.len())
    };
    assert(digits@ =~= if s@.len() > 0 && s@[0] == '+' {
        s@.drop_first()
    } else {
        s@
    });
    let text = from_chars(&digits);
    match number_as_u64(text.as_str()) {
        Some(n) => if n <= usize::MAX as u64 {
            Some(n as usize)
        } else {
            None
        },
        None => None,
    }
}

/// Reads the choice among several catalog files (see [`file_choice`]).
pub fn choose_catalog_files(found: usize, choice: &str) -> (r: Result<FileChoice, String>)
    ensures
        match file_choice(found as int, choice@) {
            Ok(c) => r == Ok::<FileChoice, String>(c),
            Err(m) => r matches Err(e) && e@ == m,
        },
{
    let c = to_chars(choice);
    let lower = ascii_lower_chars(&c);
    let all: Vec<char> = vec!['a', 'l', 'l'];
    proof {
        reveal_strlit("all");
        assert(all@ =~= "all"@);
    }
    if chars_eq(&lower, &all) {
        return Ok(FileChoice::All);
    }
    match parse_usize(&c) {
        None => {
            Err(concat3("invalid choice '", choice, "'"))
        },
        Some(n) => if n == 0 || n > found {
            let head = concat3("choice ", usize_to_string(n).as_str(), " out of range (1–");
            Err(concat3(head.as_str(), usize_to_string(found).as_str(), ")"))
        } else {
            Ok(FileChoice::One(n - 1))
        },
    }
}

/// Whether the answer to "Continue? [y/N]" goes on: `y` or `yes` once
/// lowercased.
pub fn confirm_overwrite(answer: &str) -> (r: bool)
    ensures
        r == (unicode_lowercase(answer@) == "y"@ || unicode_lowercase(answer@) == "yes"@),
{
    let a = to_lowercase(answer);
    str_eq(a.as_str(), "y") || str_eq(a.as_str(), "yes")
}

/// Whether the answer to "[1] Abort  [2] Write anyway" writes the migration.
pub fn write_despite_warnings(choice: &str) -> (r: bool)
    ensures
        r == (trim(choice@) == "2"@),
{
    let c = trim_chars(&to_chars(choice));
    let two: Vec<char> = vec!['2'];
    proof {
        reveal_strlit("2");
        assert(two@ =~= "2"@);
    }
    chars_eq(&c, &two)
}

/// Where the migrated YAML goes.
#[derive(Debug, PartialEq, Eq, Structural)]
pub enum OutputChoice {
    /// `entity.datadog.yaml` beside the source, which is removed.
    Replace,
    /// A path the user types next.
    Custom,
    /// Standard output only.
    Stdout,
}

/// The answer to "Where would you like to write the output?": `1`, `2`, or
/// anything else for standard output.
pub fn output_choice(choice: &str) -> (r: OutputChoice)
    ensures
        r == if choice@ == "1"@ {
            OutputChoice::Replace
        } else if choice@ == "2"@ {
            OutputChoice::Custom
        } else {
            OutputChoice::Stdout
        },
{
    if str_eq(choice, "1") {
        OutputChoice::Replace
    } else if str_eq(choice, "2") {
        OutputChoice::Custom
    } else {
        OutputChoice::Stdout
    }
}

/// The number of documents of kind `kind`.
pub open spec fn kind_count(docs: Seq<Json>, kind: Seq<char>) -> nat
    decreases docs.len(),
{
    if docs.len() == 0 {
        0
    } else {
        kind_count(docs.drop_last(), kind) + if str_at(jv(docs.last()), "kind"@) == Some(kind) {
            1nat
        } else {
            0nat
        }
    }
}

proof fn lemma_kind_count_le(docs: Seq<Json>, kind: Seq<char>)
    ensures
        kind_count(docs, kind) <= docs.len(),
    decreases docs.len(),
{
    if docs.len() > 0 {
        lemma_kind_count_le(docs.drop_last(), kind);
    }
}

fn kind_is(doc: &Json, kind: &str) -> (r: bool)
    ensures
        r == (str_at(jv(*doc), "kind"@) == Some(kind@)),
{
    match crate::json::get(doc, "kind") {
        Some(Json::Str(s)) => str_eq(s.as_str(), kind),
        _ => false,
    }
}

/// How many migrated documents are services and how many are systems.
pub fn kind_counts(docs: &[Json]) -> (r: (usize, usize))
    ensures
        r.0 == kind_count(docs@, "service"@),
        r.1 == kind_count(docs@, "system"@),
{
    let mut services: usize = 0;
    let mut systems: usize = 0;
    let mut i: usize = 0;
    while i < docs.len()
        invariant
            i <= docs@.len(),
            services == kind_count(docs@.take(i as int), "service"@),
            systems == kind_count(docs@.take(i as int), "system"@),
        decreases docs@.len() - i,
    {
        assert(docs@.take(i + 1).drop_last() =~= docs@.take(i as int));
        proof {
            lemma_kind_count_le(docs@.take(i as int), "service"@);
            lemma_kind_count_le(docs@.take(i as int), "system"@);
        }
        if kind_is(&docs[i], "service") {
            services += 1;
        }
        if kind_is(&docs[i], "system") {
            systems += 1;
        }
        i += 1;
    }
    assert(docs@.take(docs@.len() as int) =~= docs@);
    (services, systems)
}

/// `y` for one, `ies` for another count.
pub open spec fn entity_suffix(n: int) -> Seq<char> {
    if n == 1 {
        "y"@
    } else {
        "ies"@
    }
}

/// The line after a single migration: how many service and companion system
/// entities it wrote.
pub fn entities_line(services: usize, systems: usize) -> (r: String)
    ensures
        r@ == "  "@ + decimal(services as int) + " service entit"@ + entity_suffix(services as int)
            + ", "@ + decimal(systems as int) + " companion system entit"@ + entity_suffix(
            systems as int,
        ),
{
    let a = concat3("  ", usize_to_string(services).as_str(), " service entit");
    let a = concat2(a.as_str(), if services == 1 { "y" } else { "ies" });
    let a = concat3(a.as_str(), ", ", usize_to_string(systems).as_str());
    let a = concat2(a.as_str(), " companion system entit");
    concat2(a.as_str(), if systems == 1 { "y" } else { "ies" })
}

/// How the migration of one file ended.
pub enum MigrateStatus {
    /// Written, with the validation warnings it raised.
    Migrated { warnings: Vec<String> },
    /// Nothing to migrate, or the user chose not to write.
    Skipped,
    /// Failed, with the reason.
    Failed(String),
}

/// The migration of one file.
pub struct MigrateOutcome {
    pub path: String,
    pub status: MigrateStatus,
    pub services: usize,
    pub systems: usize,
}

/// The total of services over the outcomes.
pub open spec fn total_services(os: Seq<MigrateOutcome>) -> int
    decreases os.len(),
{
    if os.len() == 0 {
        0
    } else {
        total_services(os.drop_last()) + os.last().services
    }
}

/// The total of systems over the outcomes.
pub open spec fn total_systems(os: Seq<MigrateOutcome>) -> int
    decreases os.len(),
{
    if os.len() == 0 {
        0
    } else {
        total_systems(os.drop_last()) + os.last().systems
    }
}

/// The counts of the summary: migrated, written with warnings, failed, skipped.
pub open spec fn status_counts(os: Seq<MigrateOutcome>) -> (int, int, int, int)
    decreases os.len(),
{
    if os.len() == 0 {
        (0, 0, 0, 0)
    } else {
        let c = status_counts(os.drop_last());
        match os.last().status {
            MigrateStatus::Migrated { warnings } => (
                c.0 + 1,
                c.1 + if warnings@.len() > 0 {
                    1int
                } else {
                    0int
                },
                c.2,
                c.3,
            ),
            MigrateStatus::Failed(_) => (c.0, c.1, c.2 + 1, c.3),
            MigrateStatus::Skipped => (c.0, c.1, c.2, c.3 + 1),
        }
    }
}

pub open spec fn green() -> Seq<char> {
    "\x1b[32m"@
}

pub open spec fn red() -> Seq<char> {
    "\x1b[31m"@
}

pub open spec fn yellow() -> Seq<char> {
    "\x1b[33m"@
}

pub open spec fn bold() -> Seq<char> {
    "\x1b[1m"@
}

pub open spec fn dim() -> Seq<char> {
    "\x1b[2m"@
}

pub open spec fn reset() -> Seq<char> {
    "\x1b[0m"@
}

/// The lines of one outcome written with warnings: the path, then each warning.
pub open spec fn warned_of(o: MigrateOutcome) -> Seq<Seq<char>> {
    match o.status {
        MigrateStatus::Migrated { warnings } => if warnings@.len() > 0 {
            seq!["     "@ + yellow() + o.path@ + reset()] + views(warnings@).map_values(
                |w: Seq<char>| "       "@ + dim() + w + reset(),
            )
        } else {
            Seq::empty()
        },
        _ => Seq::empty(),
    }
}

/// The warning lines of the outcomes, in order.
pub open spec fn warned_lines(os: Seq<MigrateOutcome>) -> Seq<Seq<char>>
    decreases os.len(),
{
    if os.len() == 0 {
        Seq::empty()
    } else {
        warned_lines(os.drop_last()) + warned_of(os.last())
    }
}

/// The line of one failed outcome: the path and the reason.
pub open spec fn failed_of(o: MigrateOutcome) -> Seq<Seq<char>> {
    match o.status {
        MigrateStatus::Failed(msg) => seq!["     "@ + red() + o.path@ + reset() + ": "@ + msg@],
        _ => Seq::empty(),
    }
}

/// The lines of the failed outcomes, in order.
pub open spec fn failed_lines(os: Seq<MigrateOutcome>) -> Seq<Seq<char>>
    decreases os.len(),
{
    if os.len() == 0 {
        Seq::empty()
    } else {
        failed_lines(os.drop_last()) + failed_of(os.last())
    }
}

/// `s` unless the count is one.
pub open spec fn plural(n: int) -> Seq<char> {
    if n == 1 {
        Seq::<char>::empty()
    } else {
        "s"@
    }
}

/// The summary of a migration of several files; `elapsed` is the seconds taken,
/// as text.
pub open spec fn summary_text(os: Seq<MigrateOutcome>, elapsed: Seq<char>) -> Seq<Seq<char>> {
    let c = status_counts(os);
    seq![
        Seq::<char>::empty(),
        bold() + "Migration complete"@ + reset() + " in "@ + elapsed + "s"@,
        "  "@ + green() + bold() + "\u{2714}"@ + reset() + "  "@ + decimal(c.0) + " migrated"@,
    ] + (if c.1 > 0 {
        seq!["  "@ + yellow() + "\u{26a0}"@ + reset() + "  "@ + decimal(c.1) + " written with validation warnings"@]
            + warned_lines(os)
    } else {
        Seq::empty()
    }) + (if c.2 > 0 {
        seq!["  "@ + red() + "\u{2717}"@ + reset() + "  "@ + decimal(c.2) + " failed"@] + failed_lines(os)
    } else {
        Seq::empty()
    }) + (if c.3 > 0 {
        seq!["  "@ + dim() + "\u{2500}  "@ + decimal(c.3) + " skipped"@ + reset()]
    } else {
        Seq::empty()
    }) + seq![
        "  "@ + dim() + "\u{21b3}  "@ + decimal(total_services(os)) + " service"@ + plural(
            total_services(os),
        ) + ", "@ + decimal(total_systems(os)) + " system"@ + plural(total_systems(os)) + " total"@
            + reset(),
    ]
}

fn push_warned(o: &MigrateOutcome, out: &mut Vec<String>)
    ensures
        views(final(out)@) == views(old(out)@) + warned_of(*o),
{
    match &o.status {
        MigrateStatus::Migrated { warnings } => {
            if warnings.len() > 0 {
                let ghost start = views(out@);
                let line = concat3("     ", "\x1b[33m", o.path.as_str());
                let line = concat2(line.as_str(), "\x1b[0m");
                out.push(line);
                let ghost head = views(out@);
                assert(head =~= start + seq!["     "@ + yellow() + o.path@ + reset()]);
                let ghost ws = views(warnings@).map_values(|w: Seq<char>| "       "@ + dim() + w + reset());
                let mut k: usize = 0;
                while k < warnings.len()
                    invariant
                        k <= warnings@.len(),
                        ws == views(warnings@).map_values(|w: Seq<char>| "       "@ + dim() + w + reset()),
                        views(out@) == head + ws.take(k as int),
                    decreases warnings@.len() - k,
                {
                    let l = concat3("       ", "\x1b[2m", warnings[k].as_str());
                    let l = concat2(l.as_str(), "\x1b[0m");
                    let ghost before = views(out@);
                    out.push(l);
                    assert(views(out@) =~= before.push(ws[k as int]));
                    assert(ws.take(k + 1) =~= ws.take(k as int).push(ws[k as int]));
                    k += 1;
                }
                assert(ws.take(warnings@.len() as int) =~= ws);
                assert(views(out@) =~= start + warned_of(*o));
            } else {
                assert(views(out@) =~= views(out@) + warned_of(*o));
            }
        },
        _ => {
            assert(views(out@) =~= views(out@) + warned_of(*o));
        },
    }
}

fn push_failed(o: &MigrateOutcome, out: &mut Vec<String>)
    ensures
        views(final(out)@) == views(old(out)@) + failed_of(*o),
{
    match &o.status {
        MigrateStatus::Failed(msg) => {
            let ghost start = views(out@);
            let line = concat3("     ", "\x1b[31m", o.path.as_str());
            let line = concat3(line.as_str(), "\x1b[0m", ": ");
            let line = concat2(line.as_str(), msg.as_str());
            out.push(line);
            assert(views(out@) =~= start + failed_of(*o));
        },
        _ => {
            assert(views(out@) =~= views(out@) + failed_of(*o));
        },
    }
}

proof fn lemma_totals_prefix(os: Seq<MigrateOutcome>, i: int)
    requires
        0 <= i <= os.len(),
    ensures
        total_services(os.take(i)) <= total_services(os),
        total_systems(os.take(i)) <= total_systems(os),
        0 <= total_services(os.take(i)),
        0 <= total_systems(os.take(i)),
    decreases os.len(),
{
    if i < os.len() {
        assert(os.drop_last().take(i) =~= os.take(i));
        lemma_totals_prefix(os.drop_last(), i);
        lemma_totals_prefix(os.drop_last(), os.drop_last().len() as int);
        assert(os.drop_last().take(os.drop_last().len() as int) =~= os.drop_last());
    } else {
        assert(os.take(i) =~= os);
        if os.len() > 0 {
            lemma_totals_prefix(os.drop_last(), os.drop_last().len() as int);
            assert(os.drop_last().take(os.drop_last().len() as int) =~= os.drop_last());
        }
    }
}

proof fn lemma_counts_le(os: Seq<MigrateOutcome>)
    ensures
        0 <= status_counts(os).0 <= os.len(),
        0 <= status_counts(os).1 <= os.len(),
        0 <= status_counts(os).2 <= os.len(),
        0 <= status_counts(os).3 <= os.len(),
    decreases os.len(),
{
    if os.len() > 0 {
        lemma_counts_le(os.drop_last());
    }
}

fn count_line(prefix: &str, n: usize, suffix: &str) -> (r: String)
    ensures
        r@ == prefix@ + decimal(n as int) + suffix@,
{
    concat3(prefix, usize_to_string(n).as_str(), suffix)
}

/// The lines of the summary of a migration of several files (see
/// [`summary_text`]); `elapsed` is the seconds taken, as text.
pub fn summary_lines(outcomes: &[MigrateOutcome], elapsed: &str) -> (r: Vec<String>)
    requires
        total_services(outcomes@) <= usize::MAX,
        total_systems(outcomes@) <= usize::MAX,
    ensures
        views(r@) == summary_text(outcomes@, elapsed@),
{
    let mut migrated: usize = 0;
    let mut warned: usize = 0;
    let mut failed: usize = 0;
    let mut skipped: usize = 0;
    let mut services: usize = 0;
    let mut systems: usize = 0;
    let mut warned_out: Vec<String> = Vec::new();
    let mut failed_out: Vec<String> = Vec::new();
    let mut i: usize = 0;
    assert(outcomes@.take(0) =~= Seq::<MigrateOutcome>::empty());
    assert(views(warned_out@) =~= Seq::<Seq<char>>::empty());
    assert(views(failed_out@) =~= Seq::<Seq<char>>::empty());
    while i < outcomes.len()
        invariant
            i <= outcomes@.len(),
            total_services(outcomes@) <= usize::MAX,
            total_systems(outcomes@) <= usize::MAX,
            (migrated as int, warned as int, failed as int, skipped as int) == status_counts(
                outcomes@.take(i as int),
            ),
            services == total_services(outcomes@.take(i as int)),
            systems == total_systems(outcomes@.take(i as int)),
            views(warned_out@) == warned_lines(outcomes@.take(i as int)),
            views(failed_out@) == failed_lines(outcomes@.take(i as int)),
        decreases outcomes@.len() - i,
    {
        let o = &outcomes[i];
        assert(outcomes@.take(i + 1).drop_last() =~= outcomes@.take(i as int));
        assert(outcomes@.take(i + 1).last() == outcomes@[i as int]);
        proof {
            lemma_counts_le(outcomes@.take(i as int));
            lemma_totals_prefix(outcomes@, i + 1);
        }
        match &o.status {
            MigrateStatus::Migrated { warnings } => {
                migrated += 1;
                if warnings.len() > 0 {
                    warned += 1;
                }
            },
            MigrateStatus::Failed(_) => {
                failed += 1;
            },
            MigrateStatus::Skipped => {
                skipped += 1;
            },
        }
        services = services + o.services;
        systems = systems + o.systems;
        push_warned(o, &mut warned_out);
        push_failed(o, &mut failed_out);
        i += 1;
    }
    assert(outcomes@.take(outcomes@.len() as int) =~= outcomes@);
    let ghost c = status_counts(outcomes@);
    let mut out: Vec<String> = Vec::new();
    out.push(String::new());
    let l = concat3("\x1b[1m", "Migration complete", "\x1b[0m");
    let l = concat3(l.as_str(), " in ", elapsed);
    out.push(concat2(l.as_str(), "s"));
    let l = concat3("  ", "\x1b[32m", "\x1b[1m");
    let l = concat3(l.as_str(), "\u{2714}", "\x1b[0m");
    let l = concat2(l.as_str(), "  ");
    out.push(count_line(l.as_str(), migrated, " migrated"));
    let ghost s0 = views(out@);
    assert(s0 =~= seq![
        Seq::<char>::empty(),
        bold() + "Migration complete"@ + reset() + " in "@ + elapsed@ + "s"@,
        "  "@ + green() + bold() + "\u{2714}"@ + reset() + "  "@ + decimal(c.0) + " migrated"@,
    ]);
    if warned > 0 {
        let l = concat3("  ", "\x1b[33m", "\u{26a0}");
        let l = concat3(l.as_str(), "\x1b[0m", "  ");
        out.push(count_line(l.as_str(), warned, " written with validation warnings"));
        let ghost before = views(out@);
        let mut k: usize = 0;
        while k < warned_out.len()
            invariant
                k <= warned_out@.len(),
                views(out@) == before + views(warned_out@).take(k as int),
            decreases warned_out@.len() - k,
        {
            let ghost b = views(out@);
            out.push(warned_out[k].clone());
            assert(views(out@) =~= b.push(warned_out@[k as int]@));
            assert(views(warned_out@).take(k + 1) =~= views(warned_out@).take(k as int).push(warned_out@[k as int]@));
            k += 1;
        }
        assert(views(warned_out@).take(warned_out@.len() as int) =~= views(warned_out@));
    }
    let ghost s1 = views(out@);
    assert(s1 =~= s0 + (if c.1 > 0 {
        seq!["  "@ + yellow() + "\u{26a0}"@ + reset() + "  "@ + decimal(c.1) + " written with validation warnings"@]
            + warned_lines(outcomes@)
    } else {
        Seq::empty()
    }));
    if failed > 0 {
        let l = concat3("  ", "\x1b[31m", "\u{2717}");
        let l = concat3(l.as_str(), "\x1b[0m", "  ");
        out.push(count_line(l.as_str(), failed, " failed"));
        let ghost before = views(out@);
        let mut k: usize = 0;
        while k < failed_out.len()
            invariant
                k <= failed_out@.len(),
                views(out@) == before + views(failed_out@).take(k as int),
            decreases failed_out@.len() - k,
        {
            let ghost b = views(out@);
            out.push(failed_out[k].clone());
            assert(views(out@) =~= b.push(failed_out@[k as int]@));
            assert(views(failed_out@).take(k + 1) =~= views(failed_out@).take(k as int).push(failed_out@[k as int]@));
            k += 1;
        }
        assert(views(failed_out@).take(failed_out@.len() as int) =~= views(failed_out@));
    }
    let ghost s2 = views(out@);
    assert(s2 =~= s1 + (if c.2 > 0 {
        seq!["  "@ + red() + "\u{2717}"@ + reset() + "  "@ + decimal(c.2) + " failed"@] + failed_lines(outcomes@)
    } else {
        Seq::empty()
    }));
    if skipped > 0 {
        let l = concat2("  ", "\x1b[2m");
        let l = concat2(l.as_str(), "\u{2500}  ");
        let l = count_line(l.as_str(), skipped, " skipped");
        out.push(concat2(l.as_str(), "\x1b[0m"));
    }
    let ghost s3 = views(out@);
    assert(s3 =~= s2 + (if c.3 > 0 {
        seq!["  "@ + dim() + "\u{2500}  "@ + decimal(c.3) + " skipped"@ + reset()]
    } else {
        Seq::empty()
    }));
    proof {
        reveal_strlit("");
    }
    assert(""@ =~= Seq::<char>::empty());
    let l = concat3("  ", "\x1b[2m", "\u{21b3}  ");
    let l = count_line(l.as_str(), services, " service");
    let l = concat3(l.as_str(), if services == 1 { "" } else { "s" }, ", ");
    let l = count_line(l.as_str(), systems, " system");
    let l = concat3(l.as_str(), if systems == 1 { "" } else { "s" }, " total");
    let last = concat2(l.as_str(), "\x1b[0m");
    assert(last@ =~= "  "@ + dim() + "\u{21b3}  "@ + decimal(total_services(outcomes@)) + " service"@ + plural(
        total_services(outcomes@),
    ) + ", "@ + decimal(total_systems(outcomes@)) + " system"@ + plural(total_systems(outcomes@)) + " total"@
        + reset());
    out.push(last);
    assert(views(out@) =~= summary_text(outcomes@, elapsed@));
    out
}

/// Every outcome is counted once in the summary: as migrated, failed or
/// skipped; and those written with warnings are among the migrated.
pub proof fn law_every_outcome_counted_once(os: Seq<MigrateOutcome>)
    ensures
        status_counts(os).0 + status_counts(os).2 + status_counts(os).3 == os.len(),
        status_counts(os).1 <= status_counts(os).0,
    decreases os.len(),
{
    if os.len() > 0 {
        law_every_outcome_counted_once(os.drop_last());
    }
}

} // verus!
