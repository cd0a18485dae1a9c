use vstd::prelude::*;

use crate::table::{
    find_key, keys_unique, lemma_table_domain, lemma_table_index, lemma_table_push,
    lemma_table_update, table_view,
};

verus! {

/// The file that holds the user's configuration, relative to the project root.
pub const CONFIG_FILE_PATH: &'static str = "./Cum.toml";

/// The characters of each string of `v`.
pub open spec fn strings_view(v: Seq<String>) -> Seq<Seq<char>> {
    v.map_values(|s: String| s@)
}

/// A copy of a list of strings.
pub fn clone_strings(v: &Vec<String>) -> (r: Vec<String>)
    ensures
        strings_view(r@) == strings_view(v@),
{
    let mut r: Vec<String> = Vec::new();
    let n = v.len();
    let mut i: usize = 0;
    while i < n
        invariant
            n == v.len(),
            i <= n,
            strings_view(r@) == strings_view(v@).take(i as int),
        decreases n - i,
    {
        let ghost before = strings_view(r@);
        r.push(v[i].clone());
        assert(strings_view(r@) =~= before.push(v@[i as int]@));
        assert(strings_view(v@).take(i + 1) =~= strings_view(v@).take(i as int).push(v@[i as int]@));
        i += 1;
    }
    assert(strings_view(v@).take(n as int) =~= strings_view(v@));
    r
}

/// A named bundle of compiler and linker settings.
#[derive(Debug, Clone)]
pub struct Preset {
    pub cflags: Vec<String>,
    pub lflags: Vec<String>,
    pub libs: Vec<String>,
    pub target_folder: String,
}

/// What a preset holds, as text.
pub ghost struct PresetView {
    pub cflags: Seq<Seq<char>>,
    pub lflags: Seq<Seq<char>>,
    pub libs: Seq<Seq<char>>,
    pub target_folder: Seq<char>,
}

impl View for Preset {
    type V = PresetView;

    open spec fn view(&self) -> PresetView {
        PresetView {
            cflags: strings_view(self.cflags@),
            lflags: strings_view(self.lflags@),
            libs: strings_view(self.libs@),
            target_folder: self.target_folder@,
        }
    }
}

/// The project's configuration.
#[derive(Debug, Clone)]
pub struct Config {
    /// The C++ standard: one of 3, 11, 14, 17, 20, 23 (0 where none was given).
    pub std: u8,
    pub include_dirs: Vec<String>,
    pub lib_dirs: Vec<String>,
    pub target_name: String,
    /// The presets by name, each name once.
    pub presets: Vec<(String, Preset)>,
}

/// `b`'s settings where it gives them, else `a`'s.
pub open spec fn merge_preset(a: PresetView, b: PresetView) -> PresetView {
    PresetView {
        cflags: if b.cflags.len() > 0 {
            b.cflags
        } else {
            a.cflags
        },
        lflags: if b.lflags.len() > 0 {
            b.lflags
        } else {
            a.lflags
        },
        libs: if b.libs.len() > 0 {
            b.libs
        } else {
            a.libs
        },
        target_folder: if b.target_folder.len() > 0 {
            b.target_folder
        } else {
            a.target_folder
        },
    }
}

/// The presets of `a` and `b`; a preset named in both is merged field by field, `b` winning.
pub open spec fn merge_presets(a: Map<Seq<char>, PresetView>, b: Map<Seq<char>, PresetView>) -> Map<
    Seq<char>,
    PresetView,
> {
    Map::new(
        |k: Seq<char>| a.contains_key(k) || b.contains_key(k),
        |k: Seq<char>|
            if b.contains_key(k) {
                if a.contains_key(k) {
                    merge_preset(a[k], b[k])
                } else {
                    b[k]
                }
            } else {
                a[k]
            },
    )
}

/// The text of an allowed C++ standard, as the compiler's `-std=c++` flag takes it.
pub open spec fn std_text(std: u8) -> Option<Seq<char>> {
    if std == 3 {
        Some("03"@)
    } else if std == 11 {
        Some("11"@)
    } else if std == 14 {
        Some("14"@)
    } else if std == 17 {
        Some("17"@)
    } else if std == 20 {
        Some("20"@)
    } else if std == 23 {
        Some("23"@)
    } else {
        None
    }
}

impl Config {
    /// Each preset name occurs once.
    pub open spec fn wf(&self) -> bool {
        keys_unique(self.presets@)
    }

    /// The presets by name.
    pub open spec fn presets_view(&self) -> Map<Seq<char>, PresetView> {
        table_view(self.presets@)
    }

    /// Lays `other` over this configuration: each setting that `other` gives replaces this one's,
    /// and its presets are added or merged by name.
    pub fn incremental_merge(&mut self, other: Config)
        requires
            old(self).wf(),
            other.wf(),
        ensures
            final(self).wf(),
            final(self).std == if other.std != 0 {
                other.std
            } else {
                old(self).std
            },
            strings_view(final(self).include_dirs@) == if other.include_dirs.len() > 0 {
                strings_view(other.include_dirs@)
            } else {
                strings_view(old(self).include_dirs@)
            },
            strings_view(final(self).lib_dirs@) == if other.lib_dirs.len() > 0 {
                strings_view(other.lib_dirs@)
            } else {
                strings_view(old(self).lib_dirs@)
            },
            final(self).target_name@ == if other.target_name@.len() > 0 {
                other.target_name@
            } else {
                old(self).target_name@
            },
            final(self).presets_view() == merge_presets(
                old(self).presets_view(),
                other.presets_view(),
            ),
    {
        let ghost og = other;
        let Config { std, include_dirs, lib_dirs, target_name, presets } = other;
        if std != 0 {
            self.std = std;
        }
        if include_dirs.len() > 0 {
            self.include_dirs = include_dirs;
        }
        if lib_dirs.len() > 0 {
            self.lib_dirs = lib_dirs;
        }
        if !target_name.as_str().is_empty() {
            self.target_name = target_name;
        }
        let ghost base = table_view(self.presets@);
        let ghost all = presets@;
        let mut rest = presets;
        let n = rest.len();
        let mut i: usize = 0;
        while i < n
            invariant
                n == all.len(),
                i <= n,
                keys_unique(all),
                rest@ == all.subrange(i as int, n as int),
                keys_unique(self.presets@),
                table_view(self.presets@) == merge_presets(base, table_view(all.take(i as int))),
                self.std == if og.std != 0 {
                    og.std
                } else {
                    old(self).std
                },
                strings_view(self.include_dirs@) == if og.include_dirs.len() > 0 {
                    strings_view(og.include_dirs@)
                } else {
                    strings_view(old(self).include_dirs@)
                },
                strings_view(self.lib_dirs@) == if og.lib_dirs.len() > 0 {
                    strings_view(og.lib_dirs@)
                } else {
                    strings_view(old(self).lib_dirs@)
                },
                self.target_name@ == if og.target_name@.len() > 0 {
                    og.target_name@
                } else {
                    old(self).target_name@
                },
            decreases n - i,
        {
            let (name, value) = rest.remove(0);
            assert(all[i as int] == (name, value));
            let ghost prefix = table_view(all.take(i as int));
            proof {
                assert(all.take(i + 1) =~= all.take(i as int).push(all[i as int]));
                lemma_table_push(all.take(i as int), all[i as int]);
                lemma_table_domain(all.take(i as int), name@);
                assert(!prefix.contains_key(name@)) by {
                    if prefix.contains_key(name@) {
                        let j = choose|j: int|
                            0 <= j < all.take(i as int).len() && (#[trigger] all.take(
                                i as int,
                            )[j]).0@ == name@;
                        assert(all[j].0@ == all[i as int].0@);
                    }
                }
                assert(rest@ =~= all.subrange(i + 1, n as int));
            }
            match find_key(&self.presets, name.as_str()) {
                None => {
                    let ghost before = self.presets@;
                    proof {
                        lemma_table_domain(before, name@);
                    }
                    self.presets.push((name, value));
                    proof {
                        lemma_table_push(before, (name, value));
                        assert(keys_unique(self.presets@)) by {
                            assert forall|a: int, b: int|
                                0 <= a < self.presets@.len() && 0 <= b < self.presets@.len() && a
                                    != b implies (#[trigger] self.presets@[a]).0@ != (
                            #[trigger] self.presets@[b]).0@ by {
                                if a < before.len() && b < before.len() {
                                    assert(before[a] == self.presets@[a]);
                                    assert(before[b] == self.presets@[b]);
                                }
                            }
                        }
                        assert(table_view(self.presets@) =~= merge_presets(
                            base,
                            table_view(all.take(i + 1)),
                        ));
                    }
                },
                Some(j) => {
                    let ghost before = self.presets@;
                    proof {
                        lemma_table_index(before, j as int);
                    }
                    let (pname, mut p) = self.presets.remove(j);
                    let ghost old_p = p@;
                    let Preset { cflags, lflags, libs, target_folder } = value;
                    if cflags.len() > 0 {
                        p.cflags = cflags;
                    }
                    if lflags.len() > 0 {
                        p.lflags = lflags;
                    }
                    if libs.len() > 0 {
                        p.libs = libs;
                    }
                    if !target_folder.as_str().is_empty() {
                        p.target_folder = target_folder;
                    }
                    self.presets.insert(j, (pname, p));
                    proof {
                        assert(self.presets@ =~= before.update(j as int, (before[j as int].0, p)));
                        lemma_table_update(before, j as int, (before[j as int].0, p));
                        assert(table_view(self.presets@) =~= merge_presets(
                            base,
                            table_view(all.take(i + 1)),
                        ));
                    }
                },
            }
            i += 1;
        }
        assert(all.take(n as int) =~= all);
    }

    /// The text of the configured C++ standard, or `None` where it is not an allowed one.
    pub fn std_as_str(&self) -> (r: Option<String>)
        ensures
            match r {
                Some(s) => std_text(self.std) == Some(s@),
                None => std_text(self.std) is None,
            },
    {
        if self.std == 3 {
            Some("03".to_owned())
        } else if self.std == 11 {
            Some("11".to_owned())
        } else if self.std == 14 {
            Some("14".to_owned())
        } else if self.std == 17 {
            Some("17".to_owned())
        } else if self.std == 20 {
            Some("20".to_owned())
        } else if self.std == 23 {
            Some("23".to_owned())
        } else {
            None
        }
    }

    /// The preset named `name`, if there is one.
    pub fn preset(&self, name: &str) -> (r: Option<&Preset>)
        requires
            self.wf(),
        ensures
            match r {
                Some(p) => self.presets_view().contains_key(name@) && p@ == self.presets_view()[name@],
                None => !self.presets_view().contains_key(name@),
            },
    {
        proof {
            lemma_table_domain(self.presets@, name@);
        }
        match find_key(&self.presets, name) {
            Some(j) => {
                proof {
                    lemma_table_index(self.presets@, j as int);
                }
                Some(&self.presets[j].1)
            },
            None => None,
        }
    }
}

} // verus!
