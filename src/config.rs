//! The registry of scripts and the default settings that go with it.
use vstd::prelude::*;
use vstd::std_specs::iter::IteratorSpec;
use vstd::string::*;

use crate::order::{
    key_before, key_less, lemma_key_less_asymmetric, lemma_key_less_irreflexive,
    lemma_key_less_total, lemma_key_less_transitive,
};
use crate::script::{Script, ScriptView};

verus! {

/// Default settings of a registry.
#[derive(Debug)]
pub struct ConfigDefaultOpts {
    /// The interpreter, with its fixed arguments, that runs a script without
    /// an interpreter directive.
    pub interpreter: Option<Vec<String>>,
    /// How many characters of a command a listing shows.
    pub command_width: Option<usize>,
}

/// The scripts of a registry, each under its alias, in ascending order of
/// alias; no alias occurs twice. The entries are kept in a vector rather than
/// a `BTreeMap`: vstd's specification of `BTreeMap` holds only for keys that
/// obey its ordering specification, which `String` does not, and lookups by
/// `&str` are specified only for maps keyed by `str` itself.
#[derive(Debug)]
pub struct Scripts(Vec<(String, Script)>);

/// The contents of a registry: its scripts and its default settings.
#[derive(Debug)]
pub struct Config {
    pub scripts: Scripts,
    pub default: ConfigDefaultOpts,
}

/// No alias occurs twice among the entries.
pub open spec fn unique_keys(s: Seq<(Seq<char>, ScriptView)>) -> bool {
    forall|i: int, j: int|
        0 <= i < s.len() && 0 <= j < s.len() && i != j ==> #[trigger] s[i].0 != #[trigger] s[j].0
}

/// Some entry stands under `k`.
pub open spec fn has_key(s: Seq<(Seq<char>, ScriptView)>, k: Seq<char>) -> bool {
    exists|i: int| 0 <= i < s.len() && #[trigger] s[i].0 == k
}

/// The position of the entry under `k`.
pub open spec fn key_index(s: Seq<(Seq<char>, ScriptView)>, k: Seq<char>) -> int
    recommends
        has_key(s, k),
{
    choose|i: int| 0 <= i < s.len() && #[trigger] s[i].0 == k
}

/// The script under `k`.
pub open spec fn value_of(s: Seq<(Seq<char>, ScriptView)>, k: Seq<char>) -> ScriptView
    recommends
        has_key(s, k),
{
    s[key_index(s, k)].1
}

/// The keys of the entries ascend.
pub open spec fn sorted_keys(s: Seq<(Seq<char>, ScriptView)>) -> bool {
    forall|i: int, j: int| 0 <= i < j < s.len() ==> key_less(#[trigger] s[i].0, #[trigger] s[j].0)
}

/// An entry under `k` placed at `p` keeps the keys ascending: every key
/// before `p` comes before `k`, and `k` before every key from `p` on.
pub open spec fn fits_at(s: Seq<(Seq<char>, ScriptView)>, k: Seq<char>, p: int) -> bool {
    &&& 0 <= p <= s.len()
    &&& forall|i: int| 0 <= i < p ==> key_less(#[trigger] s[i].0, k)
    &&& forall|i: int| p <= i < s.len() ==> key_less(k, #[trigger] s[i].0)
}

/// Where a new entry under `k` goes.
pub open spec fn insert_index(s: Seq<(Seq<char>, ScriptView)>, k: Seq<char>) -> int {
    choose|p: int| fits_at(s, k, p)
}

/// The entries with `v` under `k`: in place of the entry under `k` where there
/// is one, else inserted where its key belongs.
pub open spec fn put(s: Seq<(Seq<char>, ScriptView)>, k: Seq<char>, v: ScriptView) -> Seq<
    (Seq<char>, ScriptView),
> {
    if has_key(s, k) {
        s.update(key_index(s, k), (k, v))
    } else {
        s.insert(insert_index(s, k), (k, v))
    }
}

/// At most one place fits a key.
pub proof fn lemma_fits_unique(s: Seq<(Seq<char>, ScriptView)>, k: Seq<char>, p: int, q: int)
    requires
        fits_at(s, k, p),
        fits_at(s, k, q),
    ensures
        p == q,
{
    if p < q {
        assert(key_less(s[p].0, k));
        lemma_key_less_asymmetric(s[p].0, k);
    } else if q < p {
        assert(key_less(s[q].0, k));
        lemma_key_less_asymmetric(s[q].0, k);
    }
}

/// A key that is not there has a place among ascending keys.
pub proof fn lemma_insert_index(s: Seq<(Seq<char>, ScriptView)>, k: Seq<char>)
    requires
        sorted_keys(s),
        !has_key(s, k),
    ensures
        fits_at(s, k, insert_index(s, k)),
    decreases s.len(),
{
    if s.len() == 0 {
        assert(fits_at(s, k, 0));
    } else {
        let t = s.drop_last();
        let n = s.len() - 1;
        assert forall|i: int, j: int| 0 <= i < j < t.len() implies key_less(
            #[trigger] t[i].0,
            #[trigger] t[j].0,
        ) by {
            assert(t[i] == s[i] && t[j] == s[j]);
        }
        if has_key(t, k) {
            let j = key_index(t, k);
            assert(t[j] == s[j]);
        }
        lemma_insert_index(t, k);
        let p = insert_index(t, k);
        assert(s[n].0 != k);
        lemma_key_less_total(s[n].0, k);
        if key_less(s[n].0, k) {
            assert forall|i: int| 0 <= i < s.len() implies key_less(#[trigger] s[i].0, k) by {
                if i < n && i >= p {
                    assert(t[i] == s[i]);
                    assert(key_less(s[i].0, s[n].0));
                    lemma_key_less_transitive(k, s[i].0, s[n].0);
                    lemma_key_less_asymmetric(s[n].0, k);
                } else if i < p {
                    assert(t[i] == s[i]);
                }
            }
            assert(fits_at(s, k, s.len() as int));
        } else {
            assert forall|i: int| 0 <= i < p implies key_less(#[trigger] s[i].0, k) by {
                assert(t[i] == s[i]);
            }
            assert forall|i: int| p <= i < s.len() implies key_less(k, #[trigger] s[i].0) by {
                if i < n {
                    assert(t[i] == s[i]);
                }
            }
            assert(fits_at(s, k, p));
        }
    }
}

/// The entries without the one under `k`.
pub open spec fn without(s: Seq<(Seq<char>, ScriptView)>, k: Seq<char>) -> Seq<
    (Seq<char>, ScriptView),
> {
    if has_key(s, k) {
        s.remove(key_index(s, k))
    } else {
        s
    }
}

/// With unique keys, the entry at `i` is the one under its own key.
pub proof fn lemma_entry_at(s: Seq<(Seq<char>, ScriptView)>, i: int)
    requires
        unique_keys(s),
        0 <= i < s.len(),
    ensures
        has_key(s, s[i].0),
        key_index(s, s[i].0) == i,
        value_of(s, s[i].0) == s[i].1,
{
    assert(s[i].0 == s[i].0);
    let j = key_index(s, s[i].0);
    assert(s[j].0 == s[i].0);
}

/// Putting an entry keeps the keys unique and ascending.
pub proof fn lemma_put_unique(s: Seq<(Seq<char>, ScriptView)>, k: Seq<char>, v: ScriptView)
    requires
        unique_keys(s),
        sorted_keys(s),
    ensures
        unique_keys(put(s, k, v)),
        sorted_keys(put(s, k, v)),
        has_key(put(s, k, v), k),
        value_of(put(s, k, v), k) == v,
{
    let t = put(s, k, v);
    if has_key(s, k) {
        let j = key_index(s, k);
        assert(s[j].0 == k);
        assert forall|a: int, b: int|
            0 <= a < t.len() && 0 <= b < t.len() && a != b implies #[trigger] t[a].0
            != #[trigger] t[b].0 by {
            assert(t[a].0 == s[a].0);
            assert(t[b].0 == s[b].0);
        }
        assert forall|a: int, b: int| 0 <= a < b < t.len() implies key_less(
            #[trigger] t[a].0,
            #[trigger] t[b].0,
        ) by {
            assert(t[a].0 == s[a].0);
            assert(t[b].0 == s[b].0);
        }
        lemma_entry_at(t, j);
    } else {
        lemma_insert_index(s, k);
        let p = insert_index(s, k);
        assert forall|a: int, b: int| 0 <= a < b < t.len() implies key_less(
            #[trigger] t[a].0,
            #[trigger] t[b].0,
        ) by {
            if b < p {
                assert(t[a] == s[a] && t[b] == s[b]);
            } else if b == p {
                assert(t[a] == s[a]);
            } else if a < p {
                assert(t[a] == s[a] && t[b] == s[b - 1]);
            } else if a == p {
                assert(t[b] == s[b - 1]);
            } else {
                assert(t[a] == s[a - 1] && t[b] == s[b - 1]);
            }
        }
        assert forall|a: int, b: int|
            0 <= a < t.len() && 0 <= b < t.len() && a != b implies #[trigger] t[a].0
            != #[trigger] t[b].0 by {
            if a < b {
                assert(key_less(t[a].0, t[b].0));
                lemma_key_less_irreflexive(t[a].0);
            } else {
                assert(key_less(t[b].0, t[a].0));
                lemma_key_less_irreflexive(t[b].0);
            }
        }
        assert(t[p] == (k, v));
        lemma_entry_at(t, p);
    }
}

/// Removing an entry keeps the keys unique and ascending, and leaves `k` without an entry.
pub proof fn lemma_without_unique(s: Seq<(Seq<char>, ScriptView)>, k: Seq<char>)
    requires
        unique_keys(s),
        sorted_keys(s),
    ensures
        unique_keys(without(s, k)),
        sorted_keys(without(s, k)),
        !has_key(without(s, k), k),
{
    let t = without(s, k);
    if has_key(s, k) {
        let j = key_index(s, k);
        assert(s[j].0 == k);
        assert forall|a: int, b: int|
            0 <= a < t.len() && 0 <= b < t.len() && a != b implies #[trigger] t[a].0
            != #[trigger] t[b].0 by {
            let sa = if a < j { a } else { a + 1 };
            let sb = if b < j { b } else { b + 1 };
            assert(t[a] == s[sa]);
            assert(t[b] == s[sb]);
        }
        assert forall|a: int, b: int| 0 <= a < b < t.len() implies key_less(
            #[trigger] t[a].0,
            #[trigger] t[b].0,
        ) by {
            let sa = if a < j { a } else { a + 1 };
            let sb = if b < j { b } else { b + 1 };
            assert(t[a] == s[sa]);
            assert(t[b] == s[sb]);
        }
        if has_key(t, k) {
            let a = key_index(t, k);
            let sa = if a < j { a } else { a + 1 };
            assert(t[a] == s[sa]);
        }
    }
}

/// A script as loading leaves it: its alias is the key it was stored under.
pub open spec fn healed(k: Seq<char>, v: ScriptView) -> ScriptView {
    ScriptView { alias: k, ..v }
}

/// Every script carries the key it stands under as its alias.
pub open spec fn all_healed(s: Seq<(Seq<char>, ScriptView)>) -> bool {
    forall|i: int| 0 <= i < s.len() ==> (#[trigger] s[i]).1.alias == s[i].0
}

/// The registry that loading builds from parsed entries: each entry is put in
/// turn, its script's alias set to its key; a later entry under a key
/// replaces an earlier one.
pub open spec fn loaded(s: Seq<(Seq<char>, ScriptView)>) -> Seq<(Seq<char>, ScriptView)>
    decreases s.len(),
{
    if s.len() == 0 {
        Seq::empty()
    } else {
        put(loaded(s.drop_last()), s.last().0, healed(s.last().0, s.last().1))
    }
}

impl View for Scripts {
    type V = Seq<(Seq<char>, ScriptView)>;

    closed spec fn view(&self) -> Seq<(Seq<char>, ScriptView)> {
        self.0@.map_values(|e: (String, Script)| (e.0@, e.1@))
    }
}

impl Scripts {
    /// The scripts hold each alias at most once, in ascending order of alias.
    pub open spec fn wf(&self) -> bool {
        unique_keys(self@) && sorted_keys(self@)
    }

    /// A registry without scripts.
    pub fn new() -> (r: Scripts)
        ensures
            r@ == Seq::<(Seq<char>, ScriptView)>::empty(),
            r.wf(),
    {
        let r = Scripts(Vec::new());
        assert(r@ =~= Seq::<(Seq<char>, ScriptView)>::empty());
        r
    }

    /// The position of the first entry whose key does not come before `key`.
    fn position(&self, key: &str) -> (r: usize)
        requires
            self.wf(),
        ensures
            r <= self@.len(),
            forall|i: int| 0 <= i < r ==> key_less(#[trigger] self@[i].0, key@),
            r < self@.len() ==> !key_less(self@[r as int].0, key@),
    {
        let mut i: usize = 0;
        while i < self.0.len()
            invariant
                0 <= i <= self.0.len(),
                self.wf(),
                forall|j: int| 0 <= j < i ==> key_less(#[trigger] self@[j].0, key@),
            decreases self.0.len() - i,
        {
            assert(self@[i as int].0 == self.0@[i as int].0@);
            if !key_before(self.0[i].0.as_str(), key) {
                return i;
            }
            i = i + 1;
        }
        i
    }

    /// The position of the entry under `key`, if any.
    fn find(&self, key: &str) -> (r: Option<usize>)
        requires
            self.wf(),
        ensures
            match r {
                Some(i) => i < self@.len() && self@[i as int].0 == key@ && key_index(self@, key@)
                    == i,
                None => !has_key(self@, key@),
            },
    {
        let k = String::from_str(key);
        let mut i: usize = 0;
        while i < self.0.len()
            invariant
                0 <= i <= self.0.len(),
                k@ == key@,
                self.wf(),
                forall|j: int| 0 <= j < i ==> self@[j].0 != key@,
            decreases self.0.len() - i,
        {
            assert(self@[i as int].0 == self.0@[i as int].0@);
            if self.0[i].0 == k {
                proof {
                    lemma_entry_at(self@, i as int);
                }
                return Some(i);
            }
            i = i + 1;
        }
        None
    }

    /// Whether there are no scripts.
    pub fn is_empty(&self) -> (r: bool)
        ensures
            r == (self@.len() == 0),
    {
        self.0.len() == 0
    }

    /// The script under `key`, if any.
    pub fn get(&self, key: &str) -> (r: Option<&Script>)
        requires
            self.wf(),
        ensures
            match r {
                Some(s) => has_key(self@, key@) && s@ == value_of(self@, key@),
                None => !has_key(self@, key@),
            },
    {
        match self.find(key) {
            Some(i) => {
                assert(self@[i as int].1 == self.0@[i as int].1@);
                Some(&self.0[i].1)
            },
            None => None,
        }
    }

    /// Whether some script stands under `key`.
    pub fn contains_key(&self, key: &str) -> (r: bool)
        requires
            self.wf(),
        ensures
            r == has_key(self@, key@),
    {
        self.find(key).is_some()
    }

    /// The script under `key`, to change in place; its key stays.
    pub fn get_mut(&mut self, key: &str) -> (r: Option<&mut Script>)
        requires
            old(self).wf(),
        ensures
            match r {
                Some(s) => {
                    &&& has_key(old(self)@, key@)
                    &&& s@ == value_of(old(self)@, key@)
                    &&& final(self)@ == old(self)@.update(
                        key_index(old(self)@, key@),
                        (key@, final(s)@),
                    )
                },
                None => !has_key(old(self)@, key@) && final(self)@ == old(self)@,
            },
    {
        match self.find(key) {
            Some(i) => {
                assert(self@[i as int].1 == self.0@[i as int].1@);
                let entry = &mut self.0[i];
                Some(&mut entry.1)
            },
            None => None,
        }
    }

    /// Puts `script` under `key`, in place of the script there before, which
    /// it hands back.
    pub fn insert(&mut self, key: String, script: Script) -> (r: Option<Script>)
        requires
            old(self).wf(),
        ensures
            final(self).wf(),
            final(self)@ == put(old(self)@, key@, script@),
            match r {
                Some(prev) => has_key(old(self)@, key@) && prev@ == value_of(old(self)@, key@),
                None => !has_key(old(self)@, key@),
            },
    {
        proof {
            lemma_put_unique(self@, key@, script@);
        }
        let ghost s = self@;
        let p = self.position(key.as_str());
        if p < self.0.len() && self.0[p].0 == key {
            proof {
                lemma_entry_at(s, p as int);
            }
            let (_, prev) = self.0.remove(p);
            self.0.insert(p, (key, script));
            assert(self@ =~= put(s, key@, script@));
            Some(prev)
        } else {
            proof {
                if p < s.len() {
                    assert(s[p as int].0 != key@);
                    lemma_key_less_total(s[p as int].0, key@);
                }
                assert forall|i: int| p <= i < s.len() implies key_less(key@, #[trigger] s[i].0) by {
                    if i > p {
                        assert(key_less(s[p as int].0, s[i].0));
                        lemma_key_less_transitive(key@, s[p as int].0, s[i].0);
                    }
                }
                if has_key(s, key@) {
                    let j = key_index(s, key@);
                    assert(s[j].0 == key@);
                    lemma_key_less_irreflexive(key@);
                }
                assert(fits_at(s, key@, p as int));
                lemma_insert_index(s, key@);
                lemma_fits_unique(s, key@, p as int, insert_index(s, key@));
            }
            self.0.insert(p, (key, script));
            assert(self@ =~= put(s, key@, script@));
            None
        }
    }

    /// Takes out the script under `key`, if any.
    pub fn remove(&mut self, key: &str) -> (r: Option<Script>)
        requires
            old(self).wf(),
        ensures
            final(self).wf(),
            final(self)@ == without(old(self)@, key@),
            match r {
                Some(prev) => has_key(old(self)@, key@) && prev@ == value_of(old(self)@, key@),
                None => !has_key(old(self)@, key@),
            },
    {
        proof {
            lemma_without_unique(self@, key@);
        }
        match self.find(key) {
            Some(i) => {
                let (_, prev) = self.0.remove(i);
                assert(self@ =~= without(old(self)@, key@));
                Some(prev)
            },
            None => None,
        }
    }

    /// The entries, alias and script, in order.
    pub fn iter(&self) -> (r: std::slice::Iter<'_, (String, Script)>)
        ensures
            r.remaining().map_values(|e: &(String, Script)| (e.0@, e.1@)) == self@,
    {
        self.0.iter()
    }

    /// The entries, alias and script, in order.
    pub fn entries(&self) -> (r: &Vec<(String, Script)>)
        ensures
            r@.map_values(|e: (String, Script)| (e.0@, e.1@)) == self@,
    {
        &self.0
    }

    /// Builds the scripts from parsed entries, setting each script's alias to
    /// the key it stands under.
    pub fn from_entries(entries: Vec<(String, Script)>) -> (r: Scripts)
        ensures
            r.wf(),
            r@ == loaded(entries@.map_values(|e: (String, Script)| (e.0@, e.1@))),
    {
        let ghost input = entries@.map_values(|e: (String, Script)| (e.0@, e.1@));
        let mut r = Scripts::new();
        for e in it: entries
            invariant
                input == it.seq().map_values(|e: (String, Script)| (e.0@, e.1@)),
                r.wf(),
                r@ == loaded(input.take(it.index() as int)),
        {
            proof {
                assert(input[it.index() as int] == (e.0@, e.1@));
            }
            let (key, script) = e;
            let mut script = script;
            script.alias = key.clone();
            proof {
                let i = it.index() as int;
                assert(input.take(i + 1).drop_last() =~= input.take(i));
                assert(healed(input[i].0, input[i].1) == script@);
            }
            r.insert(key, script);
        }
        assert(input.take(input.len() as int) =~= input);
        r
    }
}


impl ConfigDefaultOpts {
    /// No default interpreter and no default width.
    pub fn new() -> (r: ConfigDefaultOpts)
        ensures
            r.interpreter is None,
            r.command_width is None,
    {
        ConfigDefaultOpts { interpreter: None, command_width: None }
    }
}

impl Config {
    /// The registry's scripts hold each alias at most once.
    pub open spec fn wf(&self) -> bool {
        self.scripts.wf()
    }

    /// An empty registry with no default settings.
    pub fn new() -> (r: Config)
        ensures
            r.wf(),
            r.scripts@.len() == 0,
            r.default.interpreter is None,
            r.default.command_width is None,
    {
        Config { scripts: Scripts::new(), default: ConfigDefaultOpts::new() }
    }

    /// The registry that a parsed configuration file describes: its script
    /// entries, each script's alias set to its key, and its default settings.
    pub fn from_parsed(entries: Vec<(String, Script)>, default: ConfigDefaultOpts) -> (r: Config)
        ensures
            r.wf(),
            r.scripts@ == loaded(entries@.map_values(|e: (String, Script)| (e.0@, e.1@))),
            r.default == default,
    {
        Config { scripts: Scripts::from_entries(entries), default }
    }

    /// The registry that a fresh configuration file starts with: one example
    /// script and no default settings.
    pub fn initial() -> (r: Config)
        ensures
            r.wf(),
            r.scripts@ == seq![
                ("hello-pier"@, ScriptView {
                    alias: "hello-pier"@,
                    command: "echo Hello, Pier!"@,
                    description: Some("This is an example command."@),
                    reference: None,
                    tags: None,
                }),
            ],
            r.default.interpreter is None,
            r.default.command_width is None,
    {
        let mut r = Config::new();
        let script = Script {
            alias: String::from_str("hello-pier"),
            command: String::from_str("echo Hello, Pier!"),
            description: Some(String::from_str("This is an example command.")),
            reference: None,
            tags: None,
        };
        let key = script.alias.clone();
        proof {
            let e = Seq::<(Seq<char>, ScriptView)>::empty();
            assert(r.scripts@ =~= e);
            assert(fits_at(e, key@, 0));
            lemma_insert_index(e, key@);
            lemma_fits_unique(e, key@, 0, insert_index(e, key@));
        }
        r.scripts.insert(key, script);
        assert(r.scripts@ =~= seq![
            ("hello-pier"@, ScriptView {
                alias: "hello-pier"@,
                command: "echo Hello, Pier!"@,
                description: Some("This is an example command."@),
                reference: None,
                tags: None,
            }),
        ]);
        r
    }
}

} // verus!
