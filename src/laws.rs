//! Laws that relate the registry's operations to one another.
use vstd::prelude::*;

use crate::config::{
    fits_at, insert_index, lemma_fits_unique, lemma_insert_index, sorted_keys,
    all_healed, has_key, healed, lemma_put_unique, lemma_without_unique, loaded,
    put, unique_keys, value_of, without,
};
use crate::order::key_less;
use crate::script::ScriptView;

verus! {

/// Adding a script and then fetching its alias finds the registry non-empty
/// and gives back the script that was added, so its command too. The
/// registry is any valid one: unique aliases in ascending order.
pub proof fn law_add_then_fetch(s: Seq<(Seq<char>, ScriptView)>, script: ScriptView)
    requires
        unique_keys(s),
        sorted_keys(s),
    ensures
        put(s, script.alias, script).len() > 0,
        has_key(put(s, script.alias, script), script.alias),
        value_of(put(s, script.alias, script), script.alias) == script,
        value_of(put(s, script.alias, script), script.alias).command == script.command,
{
    lemma_put_unique(s, script.alias, script);
}

/// Removing an alias and then fetching it fails because the alias is not
/// found, provided some other script is left, so that the registry is not
/// empty.
pub proof fn law_remove_then_fetch(s: Seq<(Seq<char>, ScriptView)>, alias: Seq<char>)
    requires
        unique_keys(s),
        sorted_keys(s),
        exists|i: int| 0 <= i < s.len() && #[trigger] s[i].0 != alias,
    ensures
        without(s, alias).len() > 0,
        !has_key(without(s, alias), alias),
{
    lemma_without_unique(s, alias);
    let i = choose|i: int| 0 <= i < s.len() && #[trigger] s[i].0 != alias;
    if has_key(s, alias) {
        let j = crate::config::key_index(s, alias);
        assert(s[j].0 == alias);
        assert(j != i);
        assert(s.len() >= 2) by {
            if s.len() < 2 {
                assert(i == 0 && j == 0);
            }
        }
    }
}

/// Loading what saving wrote gives back the same scripts in the same order,
/// provided each script carries the key it stands under as its alias (which
/// loading sets, and which only a copy or a move breaks).
pub proof fn law_save_then_load(s: Seq<(Seq<char>, ScriptView)>)
    requires
        unique_keys(s),
        sorted_keys(s),
        all_healed(s),
    ensures
        loaded(s) == s,
    decreases s.len(),
{
    if s.len() > 0 {
        let p = s.drop_last();
        assert forall|a: int, b: int|
            0 <= a < p.len() && 0 <= b < p.len() && a != b implies #[trigger] p[a].0
            != #[trigger] p[b].0 by {
            assert(p[a] == s[a]);
            assert(p[b] == s[b]);
        }
        assert forall|a: int| 0 <= a < p.len() implies (#[trigger] p[a]).1.alias == p[a].0 by {
            assert(p[a] == s[a]);
        }
        assert forall|a: int, b: int| 0 <= a < b < p.len() implies key_less(
            #[trigger] p[a].0,
            #[trigger] p[b].0,
        ) by {
            assert(p[a] == s[a] && p[b] == s[b]);
        }
        law_save_then_load(p);
        let k = s.last().0;
        assert(s[s.len() - 1].1.alias == s[s.len() - 1].0);
        assert(healed(k, s.last().1) == s.last().1);
        if has_key(p, k) {
            let j = crate::config::key_index(p, k);
            assert(p[j] == s[j]);
            assert(false);
        }
        assert forall|i: int| 0 <= i < p.len() implies key_less(#[trigger] p[i].0, k) by {
            assert(p[i] == s[i]);
        }
        assert(fits_at(p, k, p.len() as int));
        lemma_insert_index(p, k);
        lemma_fits_unique(p, k, p.len() as int, insert_index(p, k));
        assert(p.insert(p.len() as int, s.last()) =~= s);
    }
}

/// A copy keeps the alias field of its source: after copying `from` to a new
/// alias `to`, fetching `to` gives a script whose alias field is `from`,
/// provided the script under `from` carries `from` as its alias (as every
/// loaded or added script does).
pub proof fn law_copy_keeps_alias(s: Seq<(Seq<char>, ScriptView)>, from: Seq<char>, to: Seq<char>)
    requires
        unique_keys(s),
        sorted_keys(s),
        has_key(s, from),
        !has_key(s, to),
        value_of(s, from).alias == from,
    ensures
        put(s, to, value_of(s, from)).len() > 0,
        has_key(put(s, to, value_of(s, from)), to),
        value_of(put(s, to, value_of(s, from)), to).alias == from,
{
    lemma_put_unique(s, to, value_of(s, from));
}

} // verus!
