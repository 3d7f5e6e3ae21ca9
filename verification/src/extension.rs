//! `pup extension`: which installation an `install` asks for, the name a local
//! extension is given, the messages that report the outcome, and the listings.
use vstd::prelude::*;

use crate::idp::migrate::{entries1, push_member};
use crate::json::{jentries, jobj, jv, Json, JsonV};
use crate::text::{
    file_name_of, is_verbatim_path, plain_path,
    concat2, concat3, ends_with, ends_with_chars, from_chars, join, join_strings, owned,
    starts_with, starts_with_chars, to_chars, usize_to_string, decimal,
};

verus! {

/// Options for installing an extension.
pub struct InstallOptions {
    pub source: String,
    pub extension: Option<String>,
    pub all: bool,
    pub tag: Option<String>,
    pub local: bool,
    pub link: bool,
    pub name: Option<String>,
    pub force: bool,
    pub description: Option<String>,
}

/// What an install does.
#[derive(Debug, PartialEq, Eq)]
pub enum InstallPlan {
    /// Copy (or link) a local executable under `name`.
    Local { source: String, name: String, link: bool, force: bool, description: Option<String> },
    /// Fetch release assets of the GitHub repository `source` (`owner/repo`).
    GitHub {
        source: String,
        tag: Option<String>,
        name: Option<String>,
        extension: Option<String>,
        all: bool,
        force: bool,
        description: Option<String>,
    },
}

/// Why an extension command was refused.
#[derive(Debug, PartialEq, Eq)]
pub enum ExtensionError {
    /// `--extension` or `--all` with a local install.
    GitHubOnlyOptions,
    /// No name could be derived from the local file name.
    NoName(String),
    /// `upgrade` without a name or `--all`.
    UpgradeTargetMissing,
}

impl ExtensionError {
    /// The user-facing message.
    pub fn to_string(&self) -> (r: String)
        ensures
            r@ == match self {
                ExtensionError::GitHubOnlyOptions => "--extension and --all are only supported for GitHub installs"@,
                ExtensionError::NoName(s) => "could not derive extension name from '"@ + s@
                    + "', use --name to specify it"@,
                ExtensionError::UpgradeTargetMissing => "specify an extension name to upgrade, or use --all to upgrade all extensions.\nUsage: pup extension upgrade <name>\nUsage: pup extension upgrade --all"@,
            },
    {
        match self {
            ExtensionError::GitHubOnlyOptions => owned(
                "--extension and --all are only supported for GitHub installs",
            ),
            ExtensionError::NoName(s) => concat3(
                "could not derive extension name from '",
                s.as_str(),
                "', use --name to specify it",
            ),
            ExtensionError::UpgradeTargetMissing => owned(
                "specify an extension name to upgrade, or use --all to upgrade all extensions.\nUsage: pup extension upgrade <name>\nUsage: pup extension upgrade --all",
            ),
        }
    }
}

/// `s` without the prefix `p` when it starts with it.
pub open spec fn strip_prefix(s: Seq<char>, p: Seq<char>) -> Seq<char> {
    if starts_with(s, p) {
        s.skip(p.len() as int)
    } else {
        s
    }
}

/// `s` without the suffix `p` when it ends with it.
pub open spec fn strip_suffix(s: Seq<char>, p: Seq<char>) -> Seq<char> {
    if ends_with(s, p) {
        s.take(s.len() - p.len())
    } else {
        s
    }
}

/// The extension name of a local executable: its file name without a leading
/// `pup-` and a trailing `.exe`.
pub open spec fn derived_name(file_name: Seq<char>) -> Seq<char> {
    strip_suffix(strip_prefix(file_name, "pup-"@), ".exe"@)
}

/// The name of a local extension from the file name of its path (`None` when
/// the path has none), refused when nothing is left.
pub fn local_extension_name(file_name: Option<&str>, source: &str) -> (r: Result<
    String,
    ExtensionError,
>)
    ensures
        ({
            let base = match file_name {
                Some(f) => derived_name(f@),
                None => derived_name(Seq::empty()),
            };
            if base.len() > 0 {
                r matches Ok(n) && n@ == base
            } else {
                r matches Err(ExtensionError::NoName(s)) && s@ == source@
            }
        }),
{
    let f = match file_name {
        Some(f) => to_chars(f),
        None => {
            let v: Vec<char> = Vec::new();
            assert(v@ =~= Seq::<char>::empty());
            v
        },
    };
    let prefix = to_chars("pup-");
    let suffix = to_chars(".exe");
    let a: Vec<char> = if starts_with_chars(&f, &prefix) {
        let mut a: Vec<char> = Vec::new();
        let mut i: usize = prefix.len();
        while i < f.len()
            invariant
                prefix@.len() <= i <= f@.len(),
                a@ == f@.subrange(prefix@.len() as int, i as int),
            decreases f@.len() - i,
        {
            a.push(f[i]);
            assert(a@ =~= f@.subrange(prefix@.len() as int, i + 1));
            i += 1;
        }
        assert(a@ =~= f@.skip(prefix@.len() as int));
        a
    } else {
        f
    };
    let b: Vec<char> = if ends_with_chars(&a, &suffix) {
        let n = a.len() - suffix.len();
        let mut b: Vec<char> = Vec::new();
        let mut i: usize = 0;
        while i < n
            invariant
                n <= a@.len(),
                i <= n,
                b@ == a@.take(i as int),
            decreases n - i,
        {
            b.push(a[i]);
            assert(b@ =~= a@.take(i + 1));
            i += 1;
        }
        b
    } else {
        a
    };
    if b.len() == 0 {
        return Err(ExtensionError::NoName(owned(source)));
    }
    Ok(from_chars(&b))
}

/// The last component of a path as std's `Path::file_name` finds it, when it is
/// valid UTF-8. Path syntax differs between platforms (`\` separates only on
/// Windows), so what is stated is what holds on all of them, outside Windows
/// verbatim paths: see [`file_name_of`]. A path that is one plain component
/// (see [`plain_path`]) is its own file name.
#[verifier::external_body]
fn path_file_name(path: &str) -> (r: Option<String>)
    ensures
        !is_verbatim_path(path@) ==> (r matches Some(n) ==> file_name_of(path@, n@)),
        plain_path(path@) ==> (r is Some && r->0@ == path@),
{
    std::path::Path::new(path).file_name().and_then(|f| f.to_str()).map(|f| f.to_string())
}

/// Decides what an install does. A local install refuses `--extension` and
/// `--all`, and without `--name` takes its name from the file name of `source`;
/// any other install reads `source` as a GitHub repository.
pub fn plan_install(opts: InstallOptions) -> (r: Result<InstallPlan, ExtensionError>)
    ensures
        opts.local && (opts.extension is Some || opts.all) ==> r == Err::<
            InstallPlan,
            ExtensionError,
        >(ExtensionError::GitHubOnlyOptions),
        opts.local && !(opts.extension is Some || opts.all) ==> match r {
            Ok(InstallPlan::Local { source, name, link, force, description }) => {
                &&& source == opts.source
                &&& link == opts.link
                &&& force == opts.force
                &&& description == opts.description
                &&& match opts.name {
                    Some(n) => name == n,
                    None => name@.len() > 0 && (!is_verbatim_path(opts.source@) ==> exists|f: Seq<char>|
                        file_name_of(opts.source@, f) && name@ == derived_name(f)),
                }
            },
            Ok(InstallPlan::GitHub { .. }) => false,
            Err(e) => opts.name is None && e == ExtensionError::NoName(opts.source),
        },
        opts.local && !(opts.extension is Some || opts.all) && opts.name is None && plain_path(
            opts.source@,
        ) ==> if derived_name(opts.source@).len() > 0 {
            r matches Ok(InstallPlan::Local { name, .. }) && name@ == derived_name(opts.source@)
        } else {
            r == Err::<InstallPlan, ExtensionError>(ExtensionError::NoName(opts.source))
        },
        !opts.local ==> r == Ok::<InstallPlan, ExtensionError>(
            InstallPlan::GitHub {
                source: opts.source,
                tag: opts.tag,
                name: opts.name,
                extension: opts.extension,
                all: opts.all,
                force: opts.force,
                description: opts.description,
            },
        ),
{
    let InstallOptions { source, extension, all, tag, local, link, name, force, description } =
        opts;
    if local {
        if extension.is_some() || all {
            return Err(ExtensionError::GitHubOnlyOptions);
        }
        let ext_name = match name {
            Some(n) => n,
            None => {
                let file = path_file_name(source.as_str());
                let derived = match &file {
                    Some(f) => local_extension_name(Some(f.as_str()), source.as_str()),
                    None => local_extension_name(None, source.as_str()),
                };
                match derived {
                    Ok(n) => n,
                    Err(ExtensionError::NoName(s)) => {
                        return Err(ExtensionError::NoName(source));
                    },
                    Err(e) => {
                        return Err(e);
                    },
                }
            },
        };
        return Ok(InstallPlan::Local { source, name: ext_name, link, force, description });
    }
    Ok(InstallPlan::GitHub { source, tag, name, extension, all, force, description })
}

/// The line that reports a GitHub install: the one extension installed, or how
/// many were and their names.
pub fn github_install_message(installed: &Vec<String>, source: &str) -> (r: String)
    ensures
        r@ == if installed@.len() == 1 {
            "Installed extension '"@ + installed@[0]@ + "' from github:"@ + source@
        } else {
            "Installed "@ + decimal(installed@.len() as int) + " extensions from github:"@ + source@
                + ": "@ + join(installed@.map_values(|s: String| s@), ", "@)
        },
{
    if installed.len() == 1 {
        let head = concat3("Installed extension '", installed[0].as_str(), "' from github:");
        concat2(head.as_str(), source)
    } else {
        let count = usize_to_string(installed.len());
        let head = concat3("Installed ", count.as_str(), " extensions from github:");
        let head = concat3(head.as_str(), source, ": ");
        let names = join_strings(installed, ", ");
        concat2(head.as_str(), names.as_str())
    }
}

/// What an upgrade does.
#[derive(Debug, PartialEq, Eq)]
pub enum UpgradeTarget {
    All,
    One(String),
}

/// Decides what an upgrade does: all extensions with `--all`, else the one named.
pub fn upgrade_target(name: Option<String>, all: bool) -> (r: Result<UpgradeTarget, ExtensionError>)
    ensures
        all ==> r == Ok::<UpgradeTarget, ExtensionError>(UpgradeTarget::All),
        !all ==> match name {
            Some(n) => r == Ok::<UpgradeTarget, ExtensionError>(UpgradeTarget::One(n)),
            None => r == Err::<UpgradeTarget, ExtensionError>(
                ExtensionError::UpgradeTargetMissing,
            ),
        },
{
    if all {
        return Ok(UpgradeTarget::All);
    }
    match name {
        Some(n) => Ok(UpgradeTarget::One(n)),
        None => Err(ExtensionError::UpgradeTargetMissing),
    }
}

/// An installed extension, as the listing shows it.
pub struct InstalledExtension {
    pub name: String,
    pub version: String,
    pub source: String,
    pub description: String,
    pub installed_at: String,
}

/// An extension a remote repository offers.
pub struct RemoteExtension {
    pub name: String,
    pub version: String,
    pub tag: String,
    pub source: String,
    pub asset: String,
    pub inferred_from_archive: bool,
}

/// The table line of an installed extension: `name vversion`, then ` - description`
/// when there is one.
pub open spec fn installed_line(e: InstalledExtension) -> Seq<char> {
    e.name@ + " v"@ + e.version@ + if e.description@.len() == 0 {
        Seq::<char>::empty()
    } else {
        " - "@ + e.description@
    }
}

/// The table of installed extensions, or how to install one when there is none.
pub open spec fn installed_table(exts: Seq<InstalledExtension>) -> Seq<Seq<char>> {
    if exts.len() == 0 {
        seq!["No extensions installed."@, Seq::<char>::empty(), "Install one with: pup extension install <source>"@]
    } else {
        exts.map_values(|e: InstalledExtension| installed_line(e))
    }
}

/// The table line of a remote extension: `name vversion (tag)`.
pub open spec fn remote_line(e: RemoteExtension) -> Seq<char> {
    e.name@ + " v"@ + e.version@ + " ("@ + e.tag@ + ")"@
}

/// The table of remote extensions, or a note that there is none.
pub open spec fn remote_table(items: Seq<RemoteExtension>) -> Seq<Seq<char>> {
    if items.len() == 0 {
        seq!["No remote extensions found."@]
    } else {
        items.map_values(|e: RemoteExtension| remote_line(e))
    }
}

/// The structured item of an installed extension.
pub open spec fn installed_item(e: InstalledExtension) -> JsonV {
    JsonV::Object(seq![
        ("name"@, JsonV::Str(e.name@)),
        ("version"@, JsonV::Str(e.version@)),
        ("source"@, JsonV::Str(e.source@)),
        ("description"@, JsonV::Str(e.description@)),
        ("installed_at"@, JsonV::Str(e.installed_at@)),
    ])
}

/// The structured item of a remote extension.
pub open spec fn remote_item(e: RemoteExtension) -> JsonV {
    JsonV::Object(seq![
        ("name"@, JsonV::Str(e.name@)),
        ("version"@, JsonV::Str(e.version@)),
        ("tag"@, JsonV::Str(e.tag@)),
        ("source"@, JsonV::Str(e.source@)),
        ("asset"@, JsonV::Str(e.asset@)),
        ("inferred_from_archive"@, JsonV::Bool(e.inferred_from_archive)),
    ])
}

fn installed_line_exec(e: &InstalledExtension) -> (r: String)
    ensures
        r@ == installed_line(*e),
{
    let head = concat3(e.name.as_str(), " v", e.version.as_str());
    if to_chars(e.description.as_str()).len() == 0 {
        assert(head@ =~= installed_line(*e));
        head
    } else {
        let r = concat3(head.as_str(), " - ", e.description.as_str());
        assert(r@ =~= installed_line(*e));
        r
    }
}

/// The table lines of `pup extension list` (see [`installed_table`]).
pub fn installed_lines(exts: &[InstalledExtension]) -> (r: Vec<String>)
    ensures
        r@.map_values(|s: String| s@) == installed_table(exts@),
{
    let mut r: Vec<String> = Vec::new();
    if exts.len() == 0 {
        r.push(owned("No extensions installed."));
        r.push(String::new());
        r.push(owned("Install one with: pup extension install <source>"));
        assert(r@.map_values(|s: String| s@) =~= installed_table(exts@));
        return r;
    }
    let mut i: usize = 0;
    while i < exts.len()
        invariant
            i <= exts@.len(),
            r@.map_values(|s: String| s@) == exts@.take(i as int).map_values(|e: InstalledExtension| installed_line(e)),
        decreases exts@.len() - i,
    {
        let ghost before = r@;
        let line = installed_line_exec(&exts[i]);
        r.push(line);
        assert(r@.map_values(|s: String| s@) =~= before.map_values(|s: String| s@).push(installed_line(exts@[i as int])));
        assert(exts@.take(i + 1) =~= exts@.take(i as int).push(exts@[i as int]));
        assert(r@.map_values(|s: String| s@) =~= exts@.take(i + 1).map_values(|e: InstalledExtension| installed_line(e)));
        i += 1;
    }
    assert(exts@.take(exts@.len() as int) =~= exts@);
    r
}

/// The table lines of `pup extension list-remote` (see [`remote_table`]).
pub fn remote_lines(items: &[RemoteExtension]) -> (r: Vec<String>)
    ensures
        r@.map_values(|s: String| s@) == remote_table(items@),
{
    let mut r: Vec<String> = Vec::new();
    if items.len() == 0 {
        r.push(owned("No remote extensions found."));
        assert(r@.map_values(|s: String| s@) =~= remote_table(items@));
        return r;
    }
    let mut i: usize = 0;
    while i < items.len()
        invariant
            i <= items@.len(),
            r@.map_values(|s: String| s@) == items@.take(i as int).map_values(|e: RemoteExtension| remote_line(e)),
        decreases items@.len() - i,
    {
        let e = &items[i];
        let head = concat3(e.name.as_str(), " v", e.version.as_str());
        let line = concat3(head.as_str(), " (", e.tag.as_str());
        let line = concat2(line.as_str(), ")");
        assert(line@ =~= remote_line(*e));
        let ghost before = r@;
        r.push(line);
        assert(r@.map_values(|s: String| s@) =~= before.map_values(|s: String| s@).push(remote_line(items@[i as int])));
        assert(items@.take(i + 1) =~= items@.take(i as int).push(items@[i as int]));
        assert(r@.map_values(|s: String| s@) =~= items@.take(i + 1).map_values(|e: RemoteExtension| remote_line(e)));
        i += 1;
    }
    assert(items@.take(items@.len() as int) =~= items@);
    r
}

/// The structured listing of installed extensions (see [`installed_item`]).
pub fn installed_items(exts: &[InstalledExtension]) -> (r: Vec<Json>)
    ensures
        r@.len() == exts@.len(),
        forall|i: int| 0 <= i < exts@.len() ==> jv(#[trigger] r@[i]) == installed_item(exts@[i]),
{
    let mut r: Vec<Json> = Vec::new();
    let mut i: usize = 0;
    while i < exts.len()
        invariant
            i <= exts@.len(),
            r@.len() == i,
            forall|k: int| 0 <= k < i ==> jv(#[trigger] r@[k]) == installed_item(exts@[k]),
        decreases exts@.len() - i,
    {
        let e = &exts[i];
        let mut es = entries1("name", Json::Str(e.name.clone()));
        push_member(&mut es, "version", Json::Str(e.version.clone()));
        push_member(&mut es, "source", Json::Str(e.source.clone()));
        push_member(&mut es, "description", Json::Str(e.description.clone()));
        push_member(&mut es, "installed_at", Json::Str(e.installed_at.clone()));
        assert(jentries(es@) =~= installed_item(*e)->Object_0);
        r.push(jobj(es));
        i += 1;
    }
    r
}

/// The structured listing of remote extensions (see [`remote_item`]).
pub fn remote_items(items: &[RemoteExtension]) -> (r: Vec<Json>)
    ensures
        r@.len() == items@.len(),
        forall|i: int| 0 <= i < items@.len() ==> jv(#[trigger] r@[i]) == remote_item(items@[i]),
{
    let mut r: Vec<Json> = Vec::new();
    let mut i: usize = 0;
    while i < items.len()
        invariant
            i <= items@.len(),
            r@.len() == i,
            forall|k: int| 0 <= k < i ==> jv(#[trigger] r@[k]) == remote_item(items@[k]),
        decreases items@.len() - i,
    {
        let e = &items[i];
        let mut es = entries1("name", Json::Str(e.name.clone()));
        push_member(&mut es, "version", Json::Str(e.version.clone()));
        push_member(&mut es, "tag", Json::Str(e.tag.clone()));
        push_member(&mut es, "source", Json::Str(e.source.clone()));
        push_member(&mut es, "asset", Json::Str(e.asset.clone()));
        push_member(&mut es, "inferred_from_archive", Json::Bool(e.inferred_from_archive));
        assert(jentries(es@) =~= remote_item(*e)->Object_0);
        r.push(jobj(es));
        i += 1;
    }
    r
}

} // verus!
