//! The installation command: everything one manifest asks to be done.
//!
//! Built section by section from the decoded manifest model, applying the
//! naming precedence (`alias` over explicit `dest` over the target's file
//! name, with `strip_ext` applied to the latter two) and validating that
//! every target exists.

use vstd::prelude::*;
use crate::errors::CharonIoError;
use crate::install_item::InstallItem;
use crate::manifest::InfoFields;
use crate::manifest::ManifestEntry;
use crate::manifest::RawEntry;
use crate::manifest::SourceFact;
use crate::manifest::TargetFact;
use crate::paths::file_name_spec;
use crate::paths::file_name_of;
use crate::paths::file_stem_spec;
use crate::paths::file_stem_of;
use crate::paths::is_absolute;
use crate::paths::is_absolute_spec;
use crate::paths::join;
use crate::paths::join_spec;
use crate::paths::parent_of;
use crate::paths::parent_spec;
use crate::text::is_info_key;
use crate::text::is_info_key_spec;

verus! {

/// A list of all items that must be installed, with the directories to
/// create first and the package metadata from the manifest.
#[derive(Debug, Clone, PartialEq, Eq)]
pub struct InstallationCmd {
    pub items: Vec<InstallItem>,
    pub mkdirs: Vec<String>,
    pub name: String,
    /// Location to look for updates.
    pub source: Option<String>,
    /// Package version.
    pub version: Option<String>,
    /// Package description.
    pub description: Option<String>,
}

/// The symbolic installation directories, injected by the caller instead
/// of being read from the process environment: each shortcut key a
/// manifest may use, with the directory it stands for.
#[derive(Debug, Clone, PartialEq, Eq, Default)]
pub struct DirConfig {
    pub entries: Vec<(String, String)>,
}

pub open spec fn lookup_spec(entries: Seq<(String, String)>, key: Seq<char>) -> Option<Seq<char>>
    decreases entries.len(),
{
    if entries.len() == 0 {
        None
    } else if entries[0].0@ == key {
        Some(entries[0].1@)
    } else {
        lookup_spec(entries.drop_first(), key)
    }
}

impl DirConfig {
    /// The directory a shortcut key stands for, if the key is known.
    pub fn lookup(&self, key: &str) -> (r: Option<&String>)
        ensures
            match r {
                Some(dir) => lookup_spec(self.entries@, key@) == Some(dir@),
                None => lookup_spec(self.entries@, key@) is None,
            },
    {
        let n = self.entries.len();
        let mut i: usize = 0;
        proof {
            assert(self.entries@.skip(0) =~= self.entries@);
        }
        while i < n
            invariant
                i <= n,
                n == self.entries@.len(),
                lookup_spec(self.entries@.skip(i as int), key@) == lookup_spec(
                    self.entries@,
                    key@,
                ),
            decreases n - i,
        {
            if crate::text::str_eq(self.entries[i].0.as_str(), key) {
                proof {
                    assert(self.entries@.skip(i as int)[0] == self.entries@[i as int]);
                }
                return Some(&self.entries[i].1);
            }
            proof {
                assert(self.entries@.skip(i as int).drop_first() =~= self.entries@.skip(i + 1));
                assert(self.entries@.skip(i as int)[0] == self.entries@[i as int]);
            }
            i = i + 1;
        }
        None
    }
}

/// How one manifest key is to be handled: as a destination directory, as
/// the `info` section, or not at all.
#[derive(Debug, Clone, PartialEq, Eq)]
pub enum KeyClass {
    /// A known directory shortcut; the payload is the destination
    /// directory for the section, the shortcut's directory joined with
    /// the package name.
    Dir(String),
    /// The `info` metadata section.
    Info,
    /// Neither: an invalid directory key.
    Unknown,
}

/// The target path an entry resolves to: the canonical form when the
/// filesystem could canonicalize it, the raw field otherwise.
pub open spec fn resolved_target_spec(raw_target: Seq<char>, fact: TargetFact) -> Seq<char> {
    match fact.canon {
        Some(c) => c@,
        None => raw_target,
    }
}

/// The file name an entry's destination gets, before the alias rule:
/// the explicit `dest` field, or the target's own file name.
pub open spec fn base_name_spec(entry: RawEntry, target: Seq<char>) -> Seq<char> {
    match entry.dest {
        Some(d) => d@,
        None => match file_name_spec(target) {
            Some(n) => n,
            None => Seq::empty(),
        },
    }
}

/// The file name an entry's destination gets. `alias` dominates
/// everything; otherwise the base name is used, with its extension
/// stripped when `strip_ext` is set.
pub open spec fn resolved_name_spec(entry: RawEntry, target: Seq<char>) -> Seq<char> {
    match entry.alias {
        Some(a) => a@,
        None => {
            let base = base_name_spec(entry, target);
            if entry.strip_ext == Some(true) {
                match file_stem_spec(base) {
                    Some(s) => s,
                    None => Seq::empty(),
                }
            } else {
                base
            }
        },
    }
}

/// The name resolution above is well defined: whatever file name it
/// needs actually exists. An alias needs nothing; otherwise the target
/// must have a file name when no `dest` field is given, and the base
/// must have a stem when `strip_ext` is set.
pub open spec fn entry_resolvable_spec(entry: RawEntry, target: Seq<char>) -> bool {
    match entry.alias {
        Some(_) => true,
        None => {
            &&& (entry.dest is Some || file_name_spec(target) is Some)
            &&& (entry.strip_ext == Some(true) ==> file_stem_spec(base_name_spec(entry, target))
                is Some)
        },
    }
}

/// What `add_item` asks of its caller: on entries it will actually
/// resolve, the name resolution is well defined.
pub open spec fn add_item_precond(entry: ManifestEntry, fact: TargetFact) -> bool {
    match entry {
        ManifestEntry::Item(raw) => match raw.target {
            Some(t) => fact.exists ==> entry_resolvable_spec(raw, resolved_target_spec(t@, fact)),
            None => true,
        },
        _ => true,
    }
}

/// Decide `add_item_precond` at run time, so an unverified caller can
/// test it before resolving an entry.
pub fn entry_resolvable(entry: &ManifestEntry, fact: &TargetFact) -> (r: bool)
    ensures
        r == add_item_precond(*entry, *fact),
{
    let raw = match entry {
        ManifestEntry::Item(raw) => raw,
        _ => {
            return true;
        },
    };
    let t = match &raw.target {
        Some(t) => t,
        None => {
            return true;
        },
    };
    if !fact.exists {
        return true;
    }
    if raw.alias.is_some() {
        return true;
    }
    let target: &String = match &fact.canon {
        Some(c) => c,
        None => t,
    };
    let base: String = match &raw.dest {
        Some(d) => d.clone(),
        None => {
            match file_name_of(target.as_str()) {
                Some(n) => n,
                None => {
                    return false;
                },
            }
        },
    };
    let strip = match &raw.strip_ext {
        Some(b) => *b,
        None => false,
    };
    if strip && file_stem_of(base.as_str()).is_none() {
        return false;
    }
    true
}

/// Whether a sequence of path strings contains `p`.
pub open spec fn contains_path(paths: Seq<String>, p: Seq<char>) -> bool {
    exists|j: int| 0 <= j < paths.len() && paths[j]@ == p
}

impl InstallationCmd {
    /// An empty command.
    pub fn new() -> (r: InstallationCmd)
        ensures
            r.items@.len() == 0,
            r.mkdirs@.len() == 0,
            r.name@.len() == 0,
            r.source is None,
            r.version is None,
            r.description is None,
    {
        InstallationCmd {
            items: Vec::new(),
            mkdirs: Vec::new(),
            name: String::new(),
            source: None,
            version: None,
            description: None,
        }
    }

    /// Decide what a manifest key stands for. A key that is a known
    /// directory shortcut expands to that directory joined with the
    /// package name; otherwise only the `info` section is meaningful.
    pub fn classify_key(&self, config: &DirConfig, key: &str) -> (r: KeyClass)
        ensures
            match r {
                KeyClass::Dir(p) => {
                    &&& lookup_spec(config.entries@, key@) matches Some(base)
                    &&& p@ == join_spec(base, self.name@)
                },
                KeyClass::Info => lookup_spec(config.entries@, key@) is None && is_info_key_spec(
                    key@,
                ),
                KeyClass::Unknown => lookup_spec(config.entries@, key@) is None
                    && !is_info_key_spec(key@),
            },
    {
        match config.lookup(key) {
            Some(base) => KeyClass::Dir(join(base.as_str(), self.name.as_str())),
            None => {
                if is_info_key(key) {
                    KeyClass::Info
                } else {
                    KeyClass::Unknown
                }
            },
        }
    }

    /// Record a directory to create: it is remembered once, and only if
    /// it does not already exist on disk.
    pub fn add_dir(&mut self, path: &str, dir_exists: bool)
        ensures
            final(self).items == old(self).items,
            final(self).name == old(self).name,
            final(self).source == old(self).source,
            final(self).version == old(self).version,
            final(self).description == old(self).description,
            contains_path(old(self).mkdirs@, path@) || dir_exists ==> final(self).mkdirs == old(
                self,
            ).mkdirs,
            !(contains_path(old(self).mkdirs@, path@) || dir_exists) ==> {
                &&& final(self).mkdirs@.len() == old(self).mkdirs@.len() + 1
                &&& final(self).mkdirs@.drop_last() == old(self).mkdirs@
                &&& final(self).mkdirs@.last()@ == path@
            },
    {
        if dir_exists {
            return ;
        }
        let n = self.mkdirs.len();
        let mut i: usize = 0;
        while i < n
            invariant
                i <= n,
                n == self.mkdirs@.len(),
                forall|j: int| 0 <= j < i ==> self.mkdirs@[j]@ != path@,
            decreases n - i,
        {
            if crate::text::str_eq(self.mkdirs[i].as_str(), path) {
                proof {
                    assert(contains_path(self.mkdirs@, path@));
                }
                return ;
            }
            i = i + 1;
        }
        proof {
            assert(!contains_path(self.mkdirs@, path@));
        }
        self.mkdirs.push(path.to_owned());
    }

    /// Resolve one manifest entry against the destination directory for
    /// its section and append the resulting install item.
    ///
    /// A bare string is a pass-through rename of `parent`. A table must
    /// name a `target` that exists; its destination file name follows
    /// the precedence `alias` over `dest` over the target's file name,
    /// the latter two with `strip_ext` applied when set.
    pub fn add_item(
        &mut self,
        parent: &str,
        dest_dir: &str,
        entry: &ManifestEntry,
        fact: &TargetFact,
        line_num: usize,
    ) -> (r: Result<(), CharonIoError>)
        requires
            add_item_precond(*entry, *fact),
        ensures
            final(self).mkdirs == old(self).mkdirs,
            final(self).name == old(self).name,
            final(self).source == old(self).source,
            final(self).version == old(self).version,
            final(self).description == old(self).description,
            match *entry {
                ManifestEntry::Shorthand(v) => {
                    &&& r is Ok
                    &&& final(self).items@.len() == old(self).items@.len() + 1
                    &&& final(self).items@.drop_last() == old(self).items@
                    &&& final(self).items@.last().target@ == parent@
                    &&& final(self).items@.last().dest@ == join_spec(dest_dir@, v@)
                    &&& final(self).items@.last().perms == 0
                    &&& !final(self).items@.last().strip_ext
                    &&& final(self).items@.last().overwrite
                    &&& final(self).items@.last().comment@.len() == 0
                },
                ManifestEntry::Other(txt) => {
                    &&& final(self).items == old(self).items
                    &&& r == Err::<(), CharonIoError>(
                        CharonIoError::InvalidInstallItem(txt, line_num),
                    )
                },
                ManifestEntry::Item(raw) => match raw.target {
                    None => {
                        &&& final(self).items == old(self).items
                        &&& r == Err::<(), CharonIoError>(CharonIoError::NoTargetProvided(line_num))
                    },
                    Some(t) => {
                        let target = resolved_target_spec(t@, *fact);
                        if !fact.exists {
                            &&& final(self).items == old(self).items
                            &&& r matches Err(e) && e matches CharonIoError::TargetFileNotFound(
                                p,
                                l,
                            ) && p@ == target && l == line_num
                        } else {
                            &&& r is Ok
                            &&& final(self).items@.len() == old(self).items@.len() + 1
                            &&& final(self).items@.drop_last() == old(self).items@
                            &&& final(self).items@.last().target@ == target
                            &&& final(self).items@.last().dest@ == join_spec(
                                dest_dir@,
                                resolved_name_spec(raw, target),
                            )
                            &&& final(self).items@.last().perms == (match raw.perms {
                                Some(p) => p,
                                None => 0,
                            })
                            &&& final(self).items@.last().strip_ext == (raw.strip_ext == Some(true))
                            &&& final(self).items@.last().overwrite == (match raw.overwrite {
                                Some(o) => o,
                                None => true,
                            })
                            &&& final(self).items@.last().comment@ == (match raw.comment {
                                Some(c) => c@,
                                None => Seq::<char>::empty(),
                            })
                        }
                    },
                },
            },
    {
        let raw = match entry {
            ManifestEntry::Shorthand(v) => {
                let it = InstallItem {
                    target: parent.to_owned(),
                    dest: join(dest_dir, v.as_str()),
                    perms: 0,
                    strip_ext: false,
                    overwrite: true,
                    comment: String::new(),
                };
                let ghost pre = self.items@;
                self.items.push(it);
                proof {
                    assert(self.items@.drop_last() =~= pre);
                }
                return Ok(());
            },
            ManifestEntry::Other(txt) => {
                return Err(CharonIoError::InvalidInstallItem(txt.clone(), line_num));
            },
            ManifestEntry::Item(raw) => raw,
        };
        let t = match &raw.target {
            Some(t) => t,
            None => {
                return Err(CharonIoError::NoTargetProvided(line_num));
            },
        };
        let target: String = match &fact.canon {
            Some(c) => c.clone(),
            None => t.clone(),
        };
        if !fact.exists {
            return Err(CharonIoError::TargetFileNotFound(target, line_num));
        }
        let strip = match &raw.strip_ext {
            Some(b) => *b,
            None => false,
        };
        let name: String = match &raw.alias {
            Some(a) => a.clone(),
            None => {
                let base: String = match &raw.dest {
                    Some(d) => d.clone(),
                    None => {
                        match file_name_of(target.as_str()) {
                            Some(n) => n,
                            None => {
                                // excluded by add_item_precond
                                proof {
                                    assert(false);
                                }
                                String::new()
                            },
                        }
                    },
                };
                if strip {
                    match file_stem_of(base.as_str()) {
                        Some(s) => s,
                        None => {
                            // excluded by add_item_precond
                            proof {
                                assert(false);
                            }
                            String::new()
                        },
                    }
                } else {
                    base
                }
            },
        };
        let it = InstallItem {
            dest: join(dest_dir, name.as_str()),
            target,
            perms: match &raw.perms {
                Some(p) => *p,
                None => 0,
            },
            strip_ext: strip,
            overwrite: match &raw.overwrite {
                Some(o) => *o,
                None => true,
            },
            comment: match &raw.comment {
                Some(c) => c.clone(),
                None => String::new(),
            },
        };
        let ghost pre = self.items@;
        self.items.push(it);
        proof {
            assert(self.items@.drop_last() =~= pre);
        }
        Ok(())
    }

    /// Take the package metadata from a manifest's `info` section. The
    /// `source` path is normalized against the filesystem facts: `.`
    /// stands for the manifest's own directory, and an existing relative
    /// path is replaced by its canonical form.
    pub fn set_info(&mut self, info: &InfoFields, fact: &SourceFact) -> (r: Result<
        (),
        CharonIoError,
    >)
        ensures
            final(self).items == old(self).items,
            final(self).mkdirs == old(self).mkdirs,
            final(self).name@ == (match info.name {
                Some(n) => n@,
                None => old(self).name@,
            }),
            match info.version {
                Some(v) => final(self).version matches Some(x) && x@ == v@,
                None => final(self).version == old(self).version,
            },
            match info.description {
                Some(d) => final(self).description matches Some(x) && x@ == d@,
                None => final(self).description == old(self).description,
            },
            match info.source {
                None => final(self).source == old(self).source && r is Ok,
                Some(path) => {
                    if path@ == "."@ {
                        match fact.charon_canon {
                            Err(e) => {
                                &&& final(self).source == old(self).source
                                &&& r matches Err(x) && x matches CharonIoError::GenericIoError(m)
                                    && m@ == e@
                            },
                            Ok(c) => match parent_spec(c@) {
                                Some(par) => {
                                    &&& r is Ok
                                    &&& final(self).source matches Some(s) && s@ == par
                                },
                                None => {
                                    &&& final(self).source == old(self).source
                                    &&& r matches Err(x) && x matches CharonIoError::InfoSourceBad(
                                        p,
                                    ) && p@ == path@
                                },
                            },
                        }
                    } else if fact.source_exists && !is_absolute_spec(path@) {
                        match fact.source_canon {
                            Ok(c) => {
                                &&& r is Ok
                                &&& final(self).source matches Some(s) && s@ == c@
                            },
                            Err(_) => {
                                &&& final(self).source == old(self).source
                                &&& r matches Err(x) && x matches CharonIoError::InfoSourceBad(p)
                                    && p@ == path@
                            },
                        }
                    } else {
                        &&& r is Ok
                        &&& final(self).source matches Some(s) && s@ == path@
                    }
                },
            },
    {
        if let Some(n) = &info.name {
            self.name = n.clone();
        }
        if let Some(v) = &info.version {
            self.version = Some(v.clone());
        }
        if let Some(d) = &info.description {
            self.description = Some(d.clone());
        }
        let path = match &info.source {
            Some(path) => path,
            None => {
                return Ok(());
            },
        };
        if crate::text::str_eq(path.as_str(), ".") {
            match &fact.charon_canon {
                Err(e) => {
                    return Err(CharonIoError::GenericIoError(e.clone()));
                },
                Ok(c) => {
                    match parent_of(c.as_str()) {
                        Some(par) => {
                            self.source = Some(par);
                        },
                        None => {
                            return Err(CharonIoError::InfoSourceBad(path.clone()));
                        },
                    }
                },
            }
        } else if fact.source_exists && !is_absolute(path.as_str()) {
            match &fact.source_canon {
                Ok(c) => {
                    self.source = Some(c.clone());
                },
                Err(_) => {
                    return Err(CharonIoError::InfoSourceBad(path.clone()));
                },
            }
        } else {
            self.source = Some(path.clone());
        }
        Ok(())
    }

    /// Append an item without a manifest entry. With `strip_ext` set the
    /// destination becomes the directory joined with the target's stem;
    /// otherwise it is taken as given.
    pub fn add_simple_item(
        &mut self,
        target: String,
        dest: String,
        perms: u32,
        overwrite: bool,
        strip_ext: bool,
    )
        ensures
            final(self).mkdirs == old(self).mkdirs,
            final(self).name == old(self).name,
            final(self).source == old(self).source,
            final(self).version == old(self).version,
            final(self).description == old(self).description,
            final(self).items@.len() == old(self).items@.len() + 1,
            final(self).items@.drop_last() == old(self).items@,
            final(self).items@.last().target@ == target@,
            final(self).items@.last().dest@ == if strip_ext {
                join_spec(dest@, simple_strip_name_spec(target@))
            } else {
                dest@
            },
            final(self).items@.last().perms == perms,
            final(self).items@.last().strip_ext == strip_ext,
            final(self).items@.last().overwrite == overwrite,
            final(self).items@.last().comment@.len() == 0,
    {
        let dest: String = if strip_ext {
            let stem: String = match file_stem_of(target.as_str()) {
                Some(s) => s,
                None => String::new(),
            };
            proof {
                if file_stem_spec(target@) is None {
                    assert(file_name_spec(stem@) is None);
                }
            }
            let name: String = match file_name_of(stem.as_str()) {
                Some(n) => n,
                None => String::new(),
            };
            join(dest.as_str(), name.as_str())
        } else {
            dest
        };
        let it = InstallItem {
            target,
            dest,
            perms,
            strip_ext,
            overwrite,
            comment: String::new(),
        };
        let ghost pre = self.items@;
        self.items.push(it);
        proof {
            assert(self.items@.drop_last() =~= pre);
        }
    }

    /// Render this command's metadata as the inline table recorded for
    /// it in the global index.
    pub fn to_toml_str(&self) -> (r: String)
        ensures
            r@ == to_toml_str_spec(*self),
    {
        let mut out = self.name.clone();
        out.append(" = {");
        if let Some(v) = &self.version {
            out.append("version = \"");
            out.append(v.as_str());
            out.append("\", ");
        }
        if let Some(d) = &self.description {
            out.append("description = \"");
            out.append(d.as_str());
            out.append("\", ");
        }
        out.append("source = \"");
        match &self.source {
            Some(s) => out.append(s.as_str()),
            None => out.append("charon"),
        }
        out.append("\" }");
        proof {
            assert(out@ =~= to_toml_str_spec(*self));
        }
        out
    }
}

/// The destination name `add_simple_item` uses when stripping the
/// extension: the file name of the target's stem, or nothing when the
/// target has none.
pub open spec fn simple_strip_name_spec(target: Seq<char>) -> Seq<char> {
    let stem = match file_stem_spec(target) {
        Some(s) => s,
        None => Seq::empty(),
    };
    match file_name_spec(stem) {
        Some(n) => n,
        None => Seq::empty(),
    }
}

/// The inline-table rendering of a command's metadata: the package name,
/// then `version` and `description` when present, then the source, which
/// defaults to the installer's own name.
pub open spec fn to_toml_str_spec(cmd: InstallationCmd) -> Seq<char> {
    cmd.name@ + " = {"@ + (match cmd.version {
        Some(v) => "version = \""@ + v@ + "\", "@,
        None => Seq::<char>::empty(),
    }) + (match cmd.description {
        Some(d) => "description = \""@ + d@ + "\", "@,
        None => Seq::<char>::empty(),
    }) + "source = \""@ + (match cmd.source {
        Some(s) => s@,
        None => "charon"@,
    }) + "\" }"@
}

/// An entry with an `alias` resolves to exactly that alias, whatever its
/// `dest` and `strip_ext` say: the alias strictly dominates.
pub proof fn lemma_alias_dominates(entry: RawEntry, target: Seq<char>, a: String)
    requires
        entry.alias == Some(a),
    ensures
        resolved_name_spec(entry, target) == a@,
{
}

/// An entry without an alias but with `strip_ext` set resolves to its
/// base name (the `dest` field, or the target's file name) with the
/// final extension removed.
pub proof fn lemma_strip_ext_removes_extension(entry: RawEntry, target: Seq<char>)
    requires
        entry.alias is None,
        entry.strip_ext == Some(true),
        entry_resolvable_spec(entry, target),
    ensures
        file_stem_spec(base_name_spec(entry, target)) == Some(
            resolved_name_spec(entry, target),
        ),
{
}

} // verus!
