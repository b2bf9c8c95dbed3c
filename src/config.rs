use vstd::prelude::*;

use crate::settings::{SettingsView, WallpaperSettings};

verus! {

/// Daemon options, as given on the command line or in the daemon's own file.
#[derive(Debug)]
pub struct Config {
    /// Path of the daemon's own configuration file.
    pub config: Option<String>,
    /// Path of the per-output wallpaper configuration.
    pub wallpaper_config: Option<String>,
    /// Stay in the foreground instead of detaching.
    pub no_daemon: bool,
    pub verbose: bool,
    /// File descriptor to write to once the daemon runs.
    pub notify: Option<u8>,
}

impl Default for Config {
    fn default() -> (r: Config)
        ensures
            r.config is None,
            r.wallpaper_config is None,
            !r.no_daemon,
            !r.verbose,
            r.notify is None,
    {
        Config { config: None, wallpaper_config: None, no_daemon: false, verbose: false, notify: None }
    }
}

/// Why a wallpaper configuration could not be had.
#[derive(Clone, Copy, Debug, PartialEq, Eq, Structural)]
pub enum ConfigError {
    /// The file could not be read.
    Unreadable,
    /// The file's text is not a valid configuration.
    Malformed,
    /// Two sections name the same output.
    DuplicateOutput,
}

/// The settings configured for one output name.
#[derive(Debug)]
pub struct OutputEntry {
    pub name: String,
    pub settings: WallpaperSettings,
}

/// The per-output wallpaper configuration and the path it was read from.
#[derive(Debug)]
pub struct WallpaperConfig {
    pub path: String,
    pub entries: Vec<OutputEntry>,
    pub default: WallpaperSettings,
}

/// What a wallpaper configuration means: its path, the settings of each named
/// output, and the fallback for every other name.
pub struct ConfigView {
    pub path: Seq<char>,
    pub outputs: Map<Seq<char>, SettingsView>,
    pub default: SettingsView,
}

pub open spec fn entry_names(entries: Seq<OutputEntry>) -> Seq<Seq<char>> {
    entries.map_values(|e: OutputEntry| e.name@)
}

pub open spec fn names_unique(entries: Seq<OutputEntry>) -> bool {
    forall|i: int, j: int|
        0 <= i < entries.len() && 0 <= j < entries.len() && i != j ==> entries[i].name@
            != entries[j].name@
}

/// The mapping from output name to settings that a list of entries describes.
pub open spec fn entry_map(entries: Seq<OutputEntry>) -> Map<Seq<char>, SettingsView> {
    Map::new(
        |n: Seq<char>| exists|i: int| 0 <= i < entries.len() && entries[i].name@ == n,
        |n: Seq<char>|
            entries[choose|i: int| 0 <= i < entries.len() && entries[i].name@ == n].settings@,
    )
}

/// The settings that an output of the given name receives: its own entry if it
/// has one, the fallback otherwise.
pub open spec fn resolve(c: ConfigView, name: Seq<char>) -> SettingsView {
    if c.outputs.contains_key(name) {
        c.outputs[name]
    } else {
        c.default
    }
}

proof fn lemma_entry_map_at(entries: Seq<OutputEntry>, i: int)
    requires
        names_unique(entries),
        0 <= i < entries.len(),
    ensures
        entry_map(entries).contains_key(entries[i].name@),
        entry_map(entries)[entries[i].name@] == entries[i].settings@,
{
    let n = entries[i].name@;
    assert(exists|k: int| 0 <= k < entries.len() && entries[k].name@ == n);
    let j = choose|k: int| 0 <= k < entries.len() && entries[k].name@ == n;
    assert(j == i);
}

proof fn lemma_entry_map_len(entries: Seq<OutputEntry>)
    requires
        names_unique(entries),
    ensures
        entry_map(entries).dom().finite(),
        entry_map(entries).dom().len() == entries.len(),
{
    let names = entry_names(entries);
    assert(names.no_duplicates()) by {
        assert forall|i: int, j: int|
            0 <= i < names.len() && 0 <= j < names.len() && i != j implies names[i]
            != names[j] by {
            assert(names[i] == entries[i].name@);
            assert(names[j] == entries[j].name@);
        }
    }
    names.unique_seq_to_set();
    assert(entry_map(entries).dom() =~= names.to_set()) by {
        assert forall|n: Seq<char>| entry_map(entries).dom().contains(n) implies names.contains(
            n,
        ) by {
            let i = choose|i: int| 0 <= i < entries.len() && entries[i].name@ == n;
            assert(names[i] == n);
        }
        assert forall|n: Seq<char>| names.contains(n) implies entry_map(entries).dom().contains(
            n,
        ) by {
            let i = choose|i: int| 0 <= i < names.len() && names[i] == n;
            assert(entries[i].name@ == n);
        }
    }
    vstd::seq_lib::seq_to_set_is_finite(names);
}

impl View for WallpaperConfig {
    type V = ConfigView;

    open spec fn view(&self) -> ConfigView {
        ConfigView { path: self.path@, outputs: entry_map(self.entries@), default: self.default@ }
    }
}

impl WallpaperConfig {
    /// Output names are unique.
    pub open spec fn wf(&self) -> bool {
        names_unique(self.entries@)
    }

    /// The position of the section for the given output name, if any.
    fn find_entry(&self, name: &String) -> (r: Option<usize>)
        requires
            self.wf(),
        ensures
            r is None <==> !self@.outputs.contains_key(name@),
            r matches Some(i) ==> i < self.entries.len() && self.entries@[i as int].name@ == name@
                && self@.outputs[name@] == self.entries@[i as int].settings@,
    {
        let n = self.entries.len();
        let mut i: usize = 0;
        while i < n
            invariant
                n == self.entries.len(),
                self.wf(),
                0 <= i <= n,
                forall|k: int| 0 <= k < i ==> self.entries@[k].name@ != name@,
            decreases n - i,
        {
            if self.entries[i].name == *name {
                proof {
                    lemma_entry_map_at(self.entries@, i as int);
                }
                return Some(i);
            }
            i += 1;
        }
        None
    }

    /// Builds a configuration from its sections; two sections for one output
    /// name are refused.
    pub fn from_entries(path: String, entries: Vec<OutputEntry>, default: WallpaperSettings) -> (r:
        Result<WallpaperConfig, ConfigError>)
        ensures
            names_unique(entries@) <==> r is Ok,
            !names_unique(entries@) ==> r == Err::<WallpaperConfig, ConfigError>(
                ConfigError::DuplicateOutput,
            ),
            r matches Ok(c) ==> c.wf() && c@ == (ConfigView {
                path: path@,
                outputs: entry_map(entries@),
                default: default@,
            }),
    {
        let n = entries.len();
        let mut i: usize = 0;
        while i < n
            invariant
                n == entries.len(),
                0 <= i <= n,
                forall|a: int, b: int|
                    0 <= a < i && 0 <= b < n && a != b ==> entries@[a].name@ != entries@[b].name@,
            decreases n - i,
        {
            let mut j: usize = 0;
            while j < n
                invariant
                    n == entries.len(),
                    0 <= i < n,
                    0 <= j <= n,
                    forall|a: int, b: int|
                        0 <= a < i && 0 <= b < n && a != b ==> entries@[a].name@
                            != entries@[b].name@,
                    forall|b: int| 0 <= b < j && b != i ==> entries@[i as int].name@ != entries@[b].name@,
                decreases n - j,
            {
                if j != i && entries[i].name == entries[j].name {
                    return Err(ConfigError::DuplicateOutput);
                }
                j += 1;
            }
            i += 1;
        }
        Ok(WallpaperConfig { path, entries, default })
    }

    /// The settings for the output of the given name, or the fallback when the
    /// configuration has no section for that name.
    pub fn get_output_by_name(&self, name: &String) -> (r: WallpaperSettings)
        requires
            self.wf(),
        ensures
            r@ == resolve(self@, name@),
    {
        match self.find_entry(name) {
            Some(i) => self.entries[i].settings.duplicate(),
            None => self.default.duplicate(),
        }
    }

    /// Whole-configuration equality: same path, same settings for every
    /// output name, same fallback. The order of the sections does not count.
    pub fn same_as(&self, other: &WallpaperConfig) -> (r: bool)
        requires
            self.wf(),
            other.wf(),
        ensures
            r == (self@ == other@),
    {
        proof {
            lemma_entry_map_len(self.entries@);
            lemma_entry_map_len(other.entries@);
        }
        if !(self.path == other.path) || !self.default.same_as(&other.default)
            || self.entries.len() != other.entries.len() {
            return false;
        }
        let n = self.entries.len();
        let mut i: usize = 0;
        while i < n
            invariant
                n == self.entries.len(),
                self.wf(),
                other.wf(),
                0 <= i <= n,
                forall|k: int|
                    0 <= k < i ==> #[trigger] other@.outputs.contains_key(self.entries@[k].name@)
                        && other@.outputs[self.entries@[k].name@] == self.entries@[k].settings@,
            decreases n - i,
        {
            proof {
                lemma_entry_map_at(self.entries@, i as int);
            }
            match other.find_entry(&self.entries[i].name) {
                None => {
                    return false;
                },
                Some(j) => {
                    if !other.entries[j].settings.same_as(&self.entries[i].settings) {
                        return false;
                    }
                    assert(other@.outputs.contains_key(self.entries@[i as int].name@));
                },
            }
            i += 1;
        }
        proof {
            let a = self@.outputs;
            let b = other@.outputs;
            assert forall|nm: Seq<char>| a.contains_key(nm) implies b.contains_key(nm) && b[nm]
                == a[nm] by {
                let k = choose|k: int| 0 <= k < n && self.entries@[k].name@ == nm;
                lemma_entry_map_at(self.entries@, k);
                assert(other@.outputs.contains_key(self.entries@[k].name@));
            }
            vstd::set_lib::lemma_subset_equality(a.dom(), b.dom());
            assert(a =~= b);
        }
        true
    }
}

} // verus!
