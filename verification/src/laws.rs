//! Laws of the registry's add-or-update operation.

use vstd::prelude::*;

use crate::registry::has_name;
use crate::registry::is_first_match;
use crate::registry::first_index;
use crate::registry::lemma_first_index_is;
use crate::registry::lemma_has_name_first;
use crate::registry::record;
use crate::registry::unique_names;
use crate::registry::upsert_view;
use crate::registry::ClusterView;

verus! {

/// Law: add-or-update is idempotent. Applying it twice with identical
/// arguments yields the same registry as applying it once, whatever the
/// starting registry.
pub proof fn lemma_upsert_idempotent(
    s: Seq<ClusterView>,
    name: Seq<char>,
    url: Seq<char>,
    username: Seq<char>,
)
    ensures
        upsert_view(upsert_view(s, name, url, username), name, url, username) == upsert_view(
            s,
            name,
            url,
            username,
        ),
{
    let rec = record(name, url, username);
    let s1 = upsert_view(s, name, url, username);
    if has_name(s, name) {
        lemma_has_name_first(s, name);
        let i = first_index(s, name);
        assert(is_first_match(s1, name, i));
        lemma_first_index_is(s1, name, i);
        assert(s1.update(i, rec) =~~= s1);
    } else {
        let i = s.len() as int;
        assert(is_first_match(s1, name, i));
        lemma_first_index_is(s1, name, i);
        assert(s1.update(i, rec) =~~= s1);
    }
}

/// Law: add-or-update keeps names unique. A registry without duplicate
/// names still has none after any add-or-update; since the empty
/// registry trivially has none, any sequence of such calls yields a
/// registry with at most one record per distinct name.
pub proof fn lemma_upsert_preserves_unique_names(
    s: Seq<ClusterView>,
    name: Seq<char>,
    url: Seq<char>,
    username: Seq<char>,
)
    requires
        unique_names(s),
    ensures
        unique_names(upsert_view(s, name, url, username)),
{
    let s1 = upsert_view(s, name, url, username);
    if has_name(s, name) {
        lemma_has_name_first(s, name);
        let k = first_index(s, name);
        assert forall|i: int, j: int| 0 <= i < j < s1.len() implies s1[i].name != s1[j].name by {
            if i == k {
                assert(s1[j] == s[j]);
                assert(s[k].name == name);
            } else if j == k {
                assert(s1[i] == s[i]);
                assert(s[k].name == name);
            } else {
                assert(s1[i] == s[i] && s1[j] == s[j]);
            }
        }
    } else {
        assert forall|i: int, j: int| 0 <= i < j < s1.len() implies s1[i].name != s1[j].name by {
            if j == s.len() as int {
                assert(s1[i] == s[i]);
                assert(!(0 <= i < s.len() && s[i].name == name));
            } else {
                assert(s1[i] == s[i] && s1[j] == s[j]);
            }
        }
    }
}

} // verus!
