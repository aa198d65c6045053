//! Configuration files, the files they pull in, and the hotkeys they define.
use vstd::prelude::*;
use crate::error::Error;
use crate::text::{words_of, text_lines, words_of_text, text_lines_of, same_text};

verus! {

/// The first word of a line that pulls in another file; the second word is its path.
pub const IMPORT_STATEMENT: &'static str = "include";

/// A configuration file: its path, its text, and the paths it pulls in.
#[derive(Debug, Clone)]
pub struct Config {
    pub path: String,
    pub contents: String,
    pub imports: Vec<String>,
}

/// What a `Config` holds, with texts as characters.
pub struct ConfigView {
    pub path: Seq<char>,
    pub contents: Seq<char>,
    pub imports: Seq<Seq<char>>,
}

/// The characters of each string.
pub open spec fn strings_view(v: Seq<String>) -> Seq<Seq<char>> {
    v.map_values(|s: String| s@)
}

impl View for Config {
    type V = ConfigView;

    open spec fn view(&self) -> ConfigView {
        ConfigView {
            path: self.path@,
            contents: self.contents@,
            imports: strings_view(self.imports@),
        }
    }
}

/// The views of a sequence of configurations.
pub open spec fn configs_view(cs: Seq<Config>) -> Seq<ConfigView> {
    cs.map_values(|c: Config| c@)
}

/// Whether two sequences of strings hold the same texts.
fn same_texts(a: &Vec<String>, b: &Vec<String>) -> (r: bool)
    ensures
        r == (strings_view(a@) == strings_view(b@)),
{
    if a.len() != b.len() {
        return false;
    }
    let mut i: usize = 0;
    while i < a.len()
        invariant
            a@.len() == b@.len(),
            i <= a@.len(),
            forall|j: int| 0 <= j < i ==> a@[j]@ == #[trigger] b@[j]@,
        decreases a.len() - i,
    {
        if a[i] != b[i] {
            assert(strings_view(a@)[i as int] != strings_view(b@)[i as int]);
            return false;
        }
        i = i + 1;
    }
    assert(strings_view(a@) =~= strings_view(b@));
    true
}

impl PartialEq for Config {
    fn eq(&self, other: &Config) -> (r: bool) {
        self.path == other.path && self.contents == other.contents && same_texts(
            &self.imports,
            &other.imports,
        )
    }
}

impl vstd::std_specs::cmp::PartialEqSpecImpl for Config {
    open spec fn obeys_eq_spec() -> bool {
        true
    }

    open spec fn eq_spec(&self, other: &Config) -> bool {
        self@ == other@
    }
}

/// The path that a line pulls in: its second white-space-separated word, where
/// its first word is the import keyword.
pub open spec fn import_of_line(l: Seq<char>) -> Option<Seq<char>> {
    let words = words_of(l);
    if words.len() > 1 && words[0] == IMPORT_STATEMENT@ {
        Some(words[1])
    } else {
        None
    }
}

/// The paths pulled in by the first `n` lines of `ls`, in order.
pub open spec fn imports_in(ls: Seq<Seq<char>>, n: nat) -> Seq<Seq<char>>
    decreases n,
{
    if n == 0 {
        seq![]
    } else {
        let prev = imports_in(ls, (n - 1) as nat);
        match import_of_line(ls[n - 1]) {
            Some(p) => prev.push(p),
            None => prev,
        }
    }
}

/// The paths pulled in by a text, in order.
pub open spec fn imports_of(contents: Seq<char>) -> Seq<Seq<char>> {
    imports_in(text_lines(contents), text_lines(contents).len())
}

/// The configuration of the file at `path` whose text is `contents`.
pub open spec fn config_of(path: Seq<char>, contents: Seq<char>) -> ConfigView {
    ConfigView { path, contents, imports: imports_of(contents) }
}

/// `cs` with each configuration of `ls` appended that it does not hold yet, in order.
pub open spec fn merged(cs: Seq<ConfigView>, ls: Seq<ConfigView>) -> Seq<ConfigView>
    decreases ls.len(),
{
    if ls.len() == 0 {
        cs
    } else {
        let m = merged(cs, ls.drop_last());
        if m.contains(ls.last()) {
            m
        } else {
            m.push(ls.last())
        }
    }
}

/// After merging, every merged configuration is present.
proof fn lemma_merged_holds_all(cs: Seq<ConfigView>, ls: Seq<ConfigView>)
    ensures
        forall|i: int| 0 <= i < ls.len() ==> merged(cs, ls).contains(#[trigger] ls[i]),
    decreases ls.len(),
{
    if ls.len() > 0 {
        let pre = ls.drop_last();
        lemma_merged_holds_all(cs, pre);
        let m = merged(cs, pre);
        assert forall|i: int| 0 <= i < ls.len() implies merged(cs, ls).contains(#[trigger] ls[i]) by {
            if i < ls.len() - 1 {
                assert(pre[i] == ls[i]);
                let j = choose|j: int| 0 <= j < m.len() && m[j] == ls[i];
                if !m.contains(ls.last()) {
                    assert(m.push(ls.last())[j] == ls[i]);
                }
            } else if !m.contains(ls.last()) {
                assert(m.push(ls.last())[m.len() as int] == ls.last());
            }
        }
    }
}

/// Merging configurations that are all present already changes nothing.
pub proof fn lemma_merge_present(cs: Seq<ConfigView>, ls: Seq<ConfigView>)
    requires
        forall|i: int| 0 <= i < ls.len() ==> cs.contains(#[trigger] ls[i]),
    ensures
        merged(cs, ls) == cs,
    decreases ls.len(),
{
    if ls.len() > 0 {
        let pre = ls.drop_last();
        assert forall|i: int| 0 <= i < pre.len() implies cs.contains(#[trigger] pre[i]) by {
            assert(pre[i] == ls[i]);
        }
        lemma_merge_present(cs, pre);
        assert(cs.contains(ls[ls.len() - 1]));
    }
}

/// Merging is idempotent: merging the same configurations a second time,
/// as a file that pulls itself in does, changes nothing.
pub proof fn lemma_merge_idempotent(cs: Seq<ConfigView>, ls: Seq<ConfigView>)
    ensures
        merged(merged(cs, ls), ls) == merged(cs, ls),
{
    lemma_merged_holds_all(cs, ls);
    lemma_merge_present(merged(cs, ls), ls);
}

impl Config {
    /// The paths that `contents` pulls in, one for each line whose first word is
    /// the import keyword and that has a second word.
    pub fn get_imports(contents: &str) -> (r: Result<Vec<String>, Error>)
        ensures
            r is Ok,
            r matches Ok(v) && strings_view(v@) == imports_of(contents@),
    {
        let lines = text_lines_of(contents);
        let ghost ls = text_lines(contents@);
        let mut imports: Vec<String> = Vec::new();
        let mut i: usize = 0;
        while i < lines.len()
            invariant
                lines@.len() == ls.len(),
                forall|j: int| 0 <= j < ls.len() ==> #[trigger] lines@[j]@ == ls[j],
                i <= lines@.len(),
                strings_view(imports@) == imports_in(ls, i as nat),
            decreases lines.len() - i,
        {
            let words = words_of_text(lines[i].as_str());
            if words.len() > 1 && same_text(words[0].as_str(), IMPORT_STATEMENT) {
                imports.push(words[1].clone());
            }
            i = i + 1;
            assert(strings_view(imports@) =~= imports_in(ls, i as nat));
        }
        Ok(imports)
    }

    /// The configuration of the file at `path` whose text is `contents`.
    pub fn new(path: String, contents: String) -> (r: Self)
        ensures
            r@ == config_of(path@, contents@),
    {
        let imports = match Self::get_imports(contents.as_str()) {
            Ok(v) => v,
            Err(_) => Vec::new(),
        };
        Config { path, contents, imports }
    }

    /// The configurations of the files this one pulls in, from their texts:
    /// `contents[i]` is the text of the file at `self.imports[i]`.
    pub fn load_to_configs(&self, contents: &Vec<String>) -> (r: Vec<Self>)
        requires
            contents@.len() == self.imports@.len(),
        ensures
            r@.len() == self.imports@.len(),
            forall|i: int|
                0 <= i < r@.len() ==> #[trigger] r@[i]@ == config_of(
                    self.imports@[i]@,
                    contents@[i]@,
                ),
    {
        let mut configs: Vec<Config> = Vec::new();
        let mut i: usize = 0;
        while i < self.imports.len()
            invariant
                contents@.len() == self.imports@.len(),
                i <= self.imports@.len(),
                configs@.len() == i,
                forall|j: int|
                    0 <= j < i ==> #[trigger] configs@[j]@ == config_of(
                        self.imports@[j]@,
                        contents@[j]@,
                    ),
            decreases self.imports.len() - i,
        {
            configs.push(Self::new(self.imports[i].clone(), contents[i].clone()));
            i = i + 1;
        }
        configs
    }

    /// One pass of merging: appends to `configs` each configuration of `loaded`
    /// that it does not hold yet, and tells whether any was appended.
    pub fn load_and_merge(configs: Vec<Self>, loaded: Vec<Self>) -> (r: (Vec<Self>, bool))
        ensures
            configs_view(r.0@) == merged(configs_view(configs@), configs_view(loaded@)),
            r.1 == (r.0@.len() > configs@.len()),
    {
        let ghost cs = configs_view(configs@);
        let ghost ls = configs_view(loaded@);
        let mut configs = configs;
        let mut loaded = loaded;
        let n0: usize = configs.len();
        let total: usize = loaded.len();
        let mut k: usize = 0;
        while loaded.len() > 0
            invariant
                ls.len() == total,
                k + loaded@.len() == total,
                configs_view(loaded@) == ls.skip(k as int),
                configs_view(configs@) == merged(cs, ls.take(k as int)),
                cs.len() == n0,
                configs@.len() >= n0,
            decreases loaded.len(),
        {
            let ghost before = loaded@;
            let c = loaded.remove(0);
            assert(ls.take(k + 1).drop_last() =~= ls.take(k as int));
            assert(ls.take(k + 1).last() == ls[k as int]);
            assert(c@ == ls[k as int]) by {
                assert(configs_view(before)[0] == ls.skip(k as int)[0]);
            }
            assert forall|j: int| 0 <= j < loaded@.len() implies #[trigger] configs_view(
                loaded@,
            )[j] == ls.skip(k + 1)[j] by {
                assert(configs_view(before)[j + 1] == ls.skip(k as int)[j + 1]);
            }
            assert(configs_view(loaded@) =~= ls.skip(k + 1));
            let mut present = false;
            let mut j: usize = 0;
            while j < configs.len()
                invariant
                    j <= configs@.len(),
                    present == (exists|l: int| 0 <= l < j && configs@[l]@ == c@),
                decreases configs.len() - j,
            {
                if configs[j] == c {
                    present = true;
                }
                j = j + 1;
            }
            proof {
                let m = configs_view(configs@);
                if present {
                    let l = choose|l: int| 0 <= l < j && configs@[l]@ == c@;
                    assert(m[l] == c@);
                } else {
                    assert forall|l: int| 0 <= l < m.len() implies m[l] != c@ by {
                        assert(m[l] == configs@[l]@);
                    }
                }
            }
            if !present {
                configs.push(c);
            }
            k = k + 1;
            assert(configs_view(configs@) =~= merged(cs, ls.take(k as int)));
        }
        assert(ls.take(k as int) =~= ls);
        let grew = configs.len() > n0;
        (configs, grew)
    }
}

} // verus!
