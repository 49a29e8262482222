//! The global index: the cross-package record of what is installed.
//!
//! One record per package name, holding the optional version, source
//! and description the package's manifest declared. The index is kept
//! as an ordered list of entries with map semantics: a name occurs at
//! most once when the index is built through `upsert`.

use vstd::prelude::*;
use crate::installation_cmd::InstallationCmd;
use crate::text::str_eq;

verus! {

/// What the global index records for one package.
#[derive(Debug, Clone, PartialEq, Eq, Default)]
pub struct PkgRecord {
    pub version: Option<String>,
    pub source: Option<String>,
    pub description: Option<String>,
}

/// The global index: package name to record, in order.
#[derive(Debug, Clone, PartialEq, Eq, Default)]
pub struct GlobalIndex {
    pub entries: Vec<(String, PkgRecord)>,
}

/// How the installed packages are listed.
pub enum ListMode {
    Simple,
    Verbose,
    Source,
}

/// Position of the first entry named `name`, or -1 when there is none.
pub open spec fn index_of_name(entries: Seq<(String, PkgRecord)>, name: Seq<char>) -> int
    decreases entries.len(),
{
    if entries.len() == 0 {
        -1
    } else if entries[0].0@ == name {
        0
    } else {
        let r = index_of_name(entries.drop_first(), name);
        if r == -1 {
            -1
        } else {
            r + 1
        }
    }
}

pub proof fn lemma_index_of_name(entries: Seq<(String, PkgRecord)>, name: Seq<char>)
    ensures
        -1 <= index_of_name(entries, name) < entries.len(),
        index_of_name(entries, name) == -1 ==> forall|j: int|
            0 <= j < entries.len() ==> (#[trigger] entries[j]).0@ != name,
        index_of_name(entries, name) >= 0 ==> {
            let i = index_of_name(entries, name);
            &&& entries[i].0@ == name
            &&& forall|j: int| 0 <= j < i ==> (#[trigger] entries[j]).0@ != name
        },
    decreases entries.len(),
{
    if entries.len() > 0 && entries[0].0@ != name {
        lemma_index_of_name(entries.drop_first(), name);
        let r = index_of_name(entries.drop_first(), name);
        if r == -1 {
            assert forall|j: int| 0 <= j < entries.len() implies (#[trigger] entries[j]).0@
                != name by {
                if j > 0 {
                    assert(entries[j] == entries.drop_first()[j - 1]);
                }
            }
        } else {
            assert(entries[r + 1] == entries.drop_first()[r]);
            assert forall|j: int| 0 <= j < r + 1 implies (#[trigger] entries[j]).0@ != name by {
                if j > 0 {
                    assert(entries[j] == entries.drop_first()[j - 1]);
                }
            }
        }
    }
}

impl GlobalIndex {
    /// An empty index.
    pub fn new() -> (r: GlobalIndex)
        ensures
            r.entries@.len() == 0,
    {
        GlobalIndex { entries: Vec::new() }
    }

    /// Find the position of a package by name.
    fn position_of(&self, name: &str) -> (r: Option<usize>)
        ensures
            match r {
                Some(i) => i == index_of_name(self.entries@, name@),
                None => index_of_name(self.entries@, name@) == -1,
            },
    {
        let n = self.entries.len();
        let mut i: usize = 0;
        proof {
            lemma_index_of_name(self.entries@, name@);
        }
        while i < n
            invariant
                i <= n,
                n == self.entries@.len(),
                forall|j: int| 0 <= j < i ==> (#[trigger] self.entries@[j]).0@ != name@,
                -1 <= index_of_name(self.entries@, name@) < n,
                index_of_name(self.entries@, name@) == -1 ==> forall|j: int|
                    0 <= j < n ==> (#[trigger] self.entries@[j]).0@ != name@,
                index_of_name(self.entries@, name@) >= 0 ==> {
                    let k = index_of_name(self.entries@, name@);
                    &&& self.entries@[k].0@ == name@
                    &&& forall|j: int| 0 <= j < k ==> (#[trigger] self.entries@[j]).0@ != name@
                },
            decreases n - i,
        {
            if str_eq(self.entries[i].0.as_str(), name) {
                return Some(i);
            }
            i = i + 1;
        }
        None
    }

    /// The record for a package, when one is present.
    pub fn lookup(&self, name: &str) -> (r: Option<&PkgRecord>)
        ensures
            match r {
                Some(rec) => {
                    &&& index_of_name(self.entries@, name@) >= 0
                    &&& *rec == self.entries@[index_of_name(self.entries@, name@)].1
                },
                None => index_of_name(self.entries@, name@) == -1,
            },
    {
        proof {
            lemma_index_of_name(self.entries@, name@);
        }
        match self.position_of(name) {
            Some(i) => Some(&self.entries[i].1),
            None => None,
        }
    }

    /// Record one package: replace its record when the name is already
    /// present, append it otherwise.
    pub fn upsert(&mut self, name: &str, rec: PkgRecord)
        ensures
            ({
                let idx = index_of_name(old(self).entries@, name@);
                if idx == -1 {
                    &&& final(self).entries@.len() == old(self).entries@.len() + 1
                    &&& final(self).entries@.drop_last() == old(self).entries@
                    &&& final(self).entries@.last().0@ == name@
                    &&& final(self).entries@.last().1 == rec
                } else {
                    &&& final(self).entries@.len() == old(self).entries@.len()
                    &&& final(self).entries@[idx].0 == old(self).entries@[idx].0
                    &&& final(self).entries@[idx].1 == rec
                    &&& forall|j: int|
                        0 <= j < old(self).entries@.len() && j != idx ==> final(self).entries@[j]
                            == old(self).entries@[j]
                }
            }),
    {
        proof {
            lemma_index_of_name(self.entries@, name@);
        }
        match self.position_of(name) {
            Some(i) => {
                self.entries[i].1 = rec;
            },
            None => {
                let ghost pre = self.entries@;
                self.entries.push((name.to_owned(), rec));
                proof {
                    assert(self.entries@.drop_last() =~= pre);
                }
            },
        }
    }

    /// Remove one package by name; report whether it was present.
    pub fn remove_name(&mut self, name: &str) -> (found: bool)
        ensures
            ({
                let idx = index_of_name(old(self).entries@, name@);
                if idx == -1 {
                    !found && final(self).entries == old(self).entries
                } else {
                    found && final(self).entries@ == old(self).entries@.remove(idx)
                }
            }),
    {
        proof {
            lemma_index_of_name(self.entries@, name@);
        }
        match self.position_of(name) {
            Some(i) => {
                let _ = self.entries.remove(i);
                true
            },
            None => false,
        }
    }

    /// Remove the named packages, in order; the result lists the names
    /// that were not present.
    pub fn remove_names(&mut self, utils: &Vec<String>) -> (missing: Vec<String>)
        ensures
            final(self).entries@ == remove_names_spec(old(self).entries@, views_of_names(utils@)).0,
            views_of_names(missing@) == remove_names_spec(
                old(self).entries@,
                views_of_names(utils@),
            ).1,
    {
        let mut missing: Vec<String> = Vec::new();
        let n = utils.len();
        let mut i: usize = 0;
        proof {
            assert(views_of_names(utils@).skip(0) =~= views_of_names(utils@));
            assert(views_of_names(missing@) =~= Seq::<Seq<char>>::empty());
        }
        while i < n
            invariant
                i <= n,
                n == utils@.len(),
                remove_names_spec(old(self).entries@, views_of_names(utils@)) == ({
                    let done = remove_names_spec(
                        self.entries@,
                        views_of_names(utils@).skip(i as int),
                    );
                    (done.0, views_of_names(missing@) + done.1)
                }),
            decreases n - i,
        {
            let ghost pre_entries = self.entries@;
            let ghost pre_missing = views_of_names(missing@);
            let ghost names = views_of_names(utils@);
            proof {
                assert(names.skip(i as int)[0] == utils@[i as int]@);
                assert(names.skip(i as int).drop_first() =~= names.skip(i + 1));
            }
            let found = self.remove_name(utils[i].as_str());
            if !found {
                missing.push(utils[i].clone());
                proof {
                    assert(views_of_names(missing@) =~= pre_missing.push(utils@[i as int]@));
                    assert(pre_missing.push(utils@[i as int]@) + remove_names_spec(
                        self.entries@,
                        names.skip(i + 1),
                    ).1 =~= pre_missing + (seq![utils@[i as int]@] + remove_names_spec(
                        self.entries@,
                        names.skip(i + 1),
                    ).1));
                }
            }
            i = i + 1;
        }
        proof {
            assert(views_of_names(utils@).skip(n as int) =~= Seq::<Seq<char>>::empty());
            assert(views_of_names(missing@) + Seq::<Seq<char>>::empty() =~= views_of_names(
                missing@,
            ));
        }
        missing
    }

    /// Render the whole index in the stored TOML form: one table per
    /// package, a blank line between tables.
    #[verifier::rlimit(50)]
    pub fn to_toml_string(&self) -> (r: String)
        ensures
            r@ == index_toml_spec(self.entries@),
    {
        let mut out = String::new();
        let n = self.entries.len();
        let mut i: usize = 0;
        proof {
            assert(self.entries@.take(0) =~= Seq::<(String, PkgRecord)>::empty());
        }
        while i < n
            invariant
                i <= n,
                n == self.entries@.len(),
                out@ == index_toml_spec(self.entries@.take(i as int)),
            decreases n - i,
        {
            let ghost pre = out@;
            let rec = &self.entries[i].1;
            let mut entry = String::new();
            entry.append("[");
            entry.append(self.entries[i].0.as_str());
            entry.append("]\n");
            if let Some(d) = &rec.description {
                entry.append("description = \"");
                entry.append(d.as_str());
                entry.append("\"\n");
            }
            if let Some(s) = &rec.source {
                entry.append("source = \"");
                entry.append(s.as_str());
                entry.append("\"\n");
            }
            if let Some(v) = &rec.version {
                entry.append("version = \"");
                entry.append(v.as_str());
                entry.append("\"\n");
            }
            proof {
                assert(entry@ =~= entry_toml_spec(self.entries@[i as int].0@, self.entries@[
                i as int].1));
            }
            if i > 0 {
                out.append("\n");
            }
            out.append(entry.as_str());
            proof {
                assert(self.entries@.take(i + 1).drop_last() =~= self.entries@.take(i as int));
                assert(self.entries@.take(i + 1).last() == self.entries@[i as int]);
                if i > 0 {
                    assert(out@ =~= index_toml_spec(self.entries@.take(i as int)) + "\n"@
                        + entry_toml_spec(self.entries@[i as int].0@, self.entries@[i as int].1));
                } else {
                    assert(out@ =~= entry_toml_spec(self.entries@[0].0@, self.entries@[0].1));
                }
            }
            i = i + 1;
        }
        proof {
            assert(self.entries@.take(n as int) =~= self.entries@);
        }
        out
    }

    /// The printed listing of the index, one line per package.
    pub fn list_lines(&self, mode: &ListMode) -> (r: Vec<String>)
        ensures
            r@.len() == self.entries@.len(),
            forall|i: int|
                0 <= i < r@.len() ==> (#[trigger] r@[i])@ == list_line_spec(
                    *mode,
                    self.entries@[i].0@,
                    self.entries@[i].1,
                ),
    {
        let mut out: Vec<String> = Vec::new();
        let n = self.entries.len();
        let mut i: usize = 0;
        while i < n
            invariant
                i <= n,
                n == self.entries@.len(),
                out@.len() == i,
                forall|j: int|
                    0 <= j < i ==> (#[trigger] out@[j])@ == list_line_spec(
                        *mode,
                        self.entries@[j].0@,
                        self.entries@[j].1,
                    ),
            decreases n - i,
        {
            let name = &self.entries[i].0;
            let rec = &self.entries[i].1;
            let line: String = match mode {
                ListMode::Simple => name.clone(),
                ListMode::Verbose => {
                    let mut l = name.clone();
                    l.append("\t\t");
                    if let Some(v) = &rec.version {
                        l.append("\"");
                        l.append(v.as_str());
                        l.append("\"");
                        l.append("\t");
                    }
                    l.append("\t");
                    if let Some(d) = &rec.description {
                        l.append("\"");
                        l.append(d.as_str());
                        l.append("\"");
                    }
                    l
                },
                ListMode::Source => {
                    let mut l = name.clone();
                    l.append("\t\t");
                    if let Some(s) = &rec.source {
                        l.append("\"");
                        l.append(s.as_str());
                        l.append("\"");
                    }
                    l
                },
            };
            proof {
                assert(line@ =~= list_line_spec(*mode, self.entries@[i as int].0@, self.entries@[
                i as int].1));
            }
            out.push(line);
            i = i + 1;
        }
        out
    }
}

/// The metadata record this command contributes to the global index.
pub fn record_from_cmd(cmd: &InstallationCmd) -> (r: PkgRecord)
    ensures
        match cmd.version {
            Some(v) => r.version matches Some(x) && x@ == v@,
            None => r.version is None,
        },
        match cmd.source {
            Some(s) => r.source matches Some(x) && x@ == s@,
            None => r.source is None,
        },
        match cmd.description {
            Some(d) => r.description matches Some(x) && x@ == d@,
            None => r.description is None,
        },
{
    PkgRecord {
        version: match &cmd.version {
            Some(v) => Some(v.clone()),
            None => None,
        },
        source: match &cmd.source {
            Some(s) => Some(s.clone()),
            None => None,
        },
        description: match &cmd.description {
            Some(d) => Some(d.clone()),
            None => None,
        },
    }
}

/// The views of a vector of names.
pub open spec fn views_of_names(names: Seq<String>) -> Seq<Seq<char>> {
    names.map_values(|s: String| s@)
}

/// Iterated removal: each name removes its first occurrence from the
/// index; a name with no occurrence is reported missing.
pub open spec fn remove_names_spec(entries: Seq<(String, PkgRecord)>, names: Seq<Seq<char>>) -> (
    Seq<(String, PkgRecord)>,
    Seq<Seq<char>>,
)
    decreases names.len(),
{
    if names.len() == 0 {
        (entries, Seq::empty())
    } else {
        let idx = index_of_name(entries, names[0]);
        if idx == -1 {
            let rest = remove_names_spec(entries, names.drop_first());
            (rest.0, seq![names[0]] + rest.1)
        } else {
            remove_names_spec(entries.remove(idx), names.drop_first())
        }
    }
}

/// The TOML lines of one record, in stored key order.
pub open spec fn record_lines_spec(rec: PkgRecord) -> Seq<char> {
    (match rec.description {
        Some(d) => "description = \""@ + d@ + "\"\n"@,
        None => Seq::<char>::empty(),
    }) + (match rec.source {
        Some(s) => "source = \""@ + s@ + "\"\n"@,
        None => Seq::<char>::empty(),
    }) + (match rec.version {
        Some(v) => "version = \""@ + v@ + "\"\n"@,
        None => Seq::<char>::empty(),
    })
}

/// One package's table in the stored index file.
pub open spec fn entry_toml_spec(name: Seq<char>, rec: PkgRecord) -> Seq<char> {
    "["@ + name + "]\n"@ + record_lines_spec(rec)
}

/// The whole stored index file: the tables in order, separated by a
/// blank line.
pub open spec fn index_toml_spec(entries: Seq<(String, PkgRecord)>) -> Seq<char>
    decreases entries.len(),
{
    if entries.len() == 0 {
        Seq::empty()
    } else if entries.len() == 1 {
        entry_toml_spec(entries[0].0@, entries[0].1)
    } else {
        index_toml_spec(entries.drop_last()) + "\n"@ + entry_toml_spec(
            entries.last().0@,
            entries.last().1,
        )
    }
}

/// One line of the listing for one package.
pub open spec fn list_line_spec(mode: ListMode, name: Seq<char>, rec: PkgRecord) -> Seq<char> {
    match mode {
        ListMode::Simple => name,
        ListMode::Verbose => name + "\t\t"@ + (match rec.version {
            Some(v) => "\""@ + v@ + "\""@ + "\t"@,
            None => Seq::<char>::empty(),
        }) + "\t"@ + (match rec.description {
            Some(d) => "\""@ + d@ + "\""@,
            None => Seq::<char>::empty(),
        }),
        ListMode::Source => name + "\t\t"@ + (match rec.source {
            Some(s) => "\""@ + s@ + "\""@,
            None => Seq::<char>::empty(),
        }),
    }
}

} // verus!
