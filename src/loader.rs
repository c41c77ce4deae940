//! Describing plugin files. Finding the files on disk and loading the
//! libraries is left to the program around the library.

use vstd::prelude::*;
use crate::plugin::{PluginError, PluginId, PluginMetadata, PluginType};

verus! {

/// The position of the last `c` in `s`, or -1.
pub open spec fn last_index_of(s: Seq<char>, c: char) -> int
    decreases s.len(),
{
    if s.len() == 0 {
        -1
    } else if s.last() == c {
        s.len() - 1
    } else {
        last_index_of(s.drop_last(), c)
    }
}

/// The file name of a path: what follows its last slash.
pub open spec fn file_name_of(path: Seq<char>) -> Seq<char> {
    path.subrange(last_index_of(path, '/') + 1, path.len() as int)
}

/// A file name without its extension: what precedes its last dot, unless
/// that dot starts the name.
pub open spec fn file_stem_of(name: Seq<char>) -> Seq<char> {
    if last_index_of(name, '.') > 0 {
        name.subrange(0, last_index_of(name, '.'))
    } else {
        name
    }
}

proof fn lemma_last_index_bounds(s: Seq<char>, c: char)
    ensures
        -1 <= last_index_of(s, c) < s.len(),
        last_index_of(s, c) >= 0 ==> s[last_index_of(s, c)] == c,
    decreases s.len(),
{
    if s.len() > 0 && s.last() != c {
        lemma_last_index_bounds(s.drop_last(), c);
    }
}

fn last_index(s: &str, c: char) -> (r: Option<usize>)
    ensures
        match r {
            Some(i) => i as int == last_index_of(s@, c),
            None => last_index_of(s@, c) == -1,
        },
{
    let n = s.unicode_len();
    let mut last: Option<usize> = None;
    let mut i: usize = 0;
    while i < n
        invariant
            n == s@.len(),
            0 <= i <= n,
            match last {
                Some(k) => k as int == last_index_of(s@.subrange(0, i as int), c),
                None => last_index_of(s@.subrange(0, i as int), c) == -1,
            },
        decreases n - i,
    {
        let ghost prefix = s@.subrange(0, i + 1);
        assert(prefix.drop_last() =~= s@.subrange(0, i as int));
        if s.get_char(i) == c {
            last = Some(i);
        }
        i = i + 1;
    }
    assert(s@.subrange(0, n as int) =~= s@);
    last
}

/// The file name of `path`, if it has a non-empty one.
pub fn file_name(path: &str) -> (r: Option<&str>)
    ensures
        file_name_of(path@).len() == 0 ==> r is None,
        file_name_of(path@).len() > 0 ==> (r matches Some(name) && name@ == file_name_of(path@)),
{
    let n = path.unicode_len();
    proof {
        lemma_last_index_bounds(path@, '/');
    }
    let start = match last_index(path, '/') {
        Some(i) => i + 1,
        None => 0,
    };
    if start == n {
        return None;
    }
    Some(path.substring_char(start, n))
}

/// The file name of `path` without its extension.
pub fn file_stem(name: &str) -> (r: &str)
    ensures
        r@ == file_stem_of(name@),
{
    proof {
        lemma_last_index_bounds(name@, '.');
    }
    match last_index(name, '.') {
        Some(i) => if i > 0 {
            name.substring_char(0, i)
        } else {
            name
        },
        None => name,
    }
}

/// Where plugins are looked for.
pub struct PluginLoader {
    plugin_dirs: Vec<String>,
}

impl PluginLoader {
    pub closed spec fn spec_plugin_dirs(&self) -> Seq<String> {
        self.plugin_dirs@
    }

    /// A loader that looks in `plugin_dirs`.
    pub fn new(plugin_dirs: Vec<String>) -> (r: PluginLoader)
        ensures
            r.spec_plugin_dirs() == plugin_dirs@,
    {
        PluginLoader { plugin_dirs }
    }

    /// Describes the plugin in the library file at `path`: a utility whose
    /// id is `plugin_` and the file name. Fails for a path without a file
    /// name.
    pub fn load_from_file(&self, path: &str) -> (r: Result<PluginMetadata, PluginError>)
        ensures
            file_name_of(path@).len() == 0 ==> (r matches Err(e) && e is NotFound),
            file_name_of(path@).len() > 0 ==> (r matches Ok(m) && m.id@ == "plugin_"@ + file_name_of(path@)
                && m.plugin_type == PluginType::Utility && m.entry_point@ == "init"@),
    {
        match file_name(path) {
            Some(name) => Ok(PluginMetadata {
                id: PluginId::new(String::from_str("plugin_").concat(name)),
                name: String::from_str(name),
                version: String::from_str("1.0.0"),
                description: String::from_str("A plugin loaded from a library file"),
                author: String::new(),
                license: String::new(),
                plugin_type: PluginType::Utility,
                entry_point: String::from_str("init"),
            }),
            None => Err(PluginError::NotFound(String::from_str("the path names no file"))),
        }
    }

    /// Replaces the directories looked in.
    pub fn set_plugin_dirs(&mut self, dirs: Vec<String>)
        ensures
            final(self).spec_plugin_dirs() == dirs@,
    {
        self.plugin_dirs = dirs;
    }

    /// The directories looked in.
    pub fn plugin_dirs(&self) -> (r: &Vec<String>)
        ensures
            r@ == self.spec_plugin_dirs(),
    {
        &self.plugin_dirs
    }
}

/// The library files registered for loading.
pub struct DynamicPluginLoader {
    plugin_paths: Vec<String>,
}

impl DynamicPluginLoader {
    pub closed spec fn spec_plugin_paths(&self) -> Seq<String> {
        self.plugin_paths@
    }

    /// A loader with no files registered.
    pub fn new() -> (r: DynamicPluginLoader)
        ensures
            r.spec_plugin_paths().len() == 0,
    {
        DynamicPluginLoader { plugin_paths: Vec::new() }
    }

    /// Registers the library file at `path`.
    pub fn register(&mut self, path: String)
        ensures
            final(self).spec_plugin_paths() == old(self).spec_plugin_paths().push(path),
    {
        self.plugin_paths.push(path);
    }

    /// The registered files, in order.
    pub fn plugin_paths(&self) -> (r: &Vec<String>)
        ensures
            r@ == self.spec_plugin_paths(),
    {
        &self.plugin_paths
    }

    /// Describes the plugin in the library file at `path`: a custom plugin
    /// named after the file's stem, whose id is `dynamic_plugin_` and the
    /// file name. Fails for a path without a file name.
    pub fn load(&self, path: &str) -> (r: Result<PluginMetadata, PluginError>)
        ensures
            file_name_of(path@).len() == 0 ==> (r matches Err(e) && e is NotFound),
            file_name_of(path@).len() > 0 ==> (r matches Ok(m) && m.id@ == "dynamic_plugin_"@ + file_name_of(path@)
                && m.name@ == file_stem_of(file_name_of(path@)) && m.plugin_type == PluginType::Custom
                && m.entry_point@ == "boomaga_plugin_init"@),
    {
        match file_name(path) {
            Some(name) => Ok(PluginMetadata {
                id: PluginId::new(String::from_str("dynamic_plugin_").concat(name)),
                name: String::from_str(file_stem(name)),
                version: String::from_str("1.0.0"),
                description: String::from_str("Dynamic plugin"),
                author: String::new(),
                license: String::new(),
                plugin_type: PluginType::Custom,
                entry_point: String::from_str("boomaga_plugin_init"),
            }),
            None => Err(PluginError::NotFound(String::from_str("the path names no file"))),
        }
    }
}

} // verus!
