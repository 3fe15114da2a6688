//! Users of the directory service and how the interface names them from the
//! cache of display names it keeps.

use vstd::prelude::*;
use vstd::hash_map::StringHashMap;

use crate::sort::{SortKey, law_stable_sort_permutes, law_stable_sort_sorted, stable_sort, stable_sorted, strict_weak, views};
use crate::acl::{AclEntry, AclView};
use crate::text::{Order, compare_text, joined, lemma_text_less_strict_weak, lowercase, opt_view, text_order, texts_view, to_lowercase};

verus! {

/// A user as the directory service describes it.
#[derive(Clone, Debug, PartialEq, Eq)]
pub struct User {
    pub id: String,
    pub display: String,
}

/// The cache of display names: for each user name asked about, the display
/// name the API gave, or `None` when the API knows no such account.
pub type DisplayCache = StringHashMap<Option<String>>;

/// How well the interface knows a user name.
#[derive(Clone, Copy, Debug, PartialEq, Eq, Structural)]
pub enum NameState {
    /// The display name is known.
    Known,
    /// The API knows no such account.
    Invalid,
    /// The display name has not been fetched yet.
    Unknown,
}

/// How well the cache `cache` knows the user name `cn`.
pub open spec fn name_state(cache: Map<Seq<char>, Option<String>>, cn: Seq<char>) -> NameState {
    if !cache.contains_key(cn) {
        NameState::Unknown
    } else if cache[cn] is Some {
        NameState::Known
    } else {
        NameState::Invalid
    }
}

/// The text shown for an account the API does not know.
pub open spec fn invalid_account_text(cn: Seq<char>) -> Seq<char> {
    "<invalid account> ("@ + cn + ")"@
}

/// The name shown for the subject `cn` of an access control entry: its
/// display name, the invalid account text, or `cn` itself while unknown.
pub open spec fn subject_display(cache: Map<Seq<char>, Option<String>>, cn: Seq<char>) -> Seq<char> {
    match name_state(cache, cn) {
        NameState::Known => cache[cn]->0@,
        NameState::Invalid => invalid_account_text(cn),
        NameState::Unknown => cn,
    }
}

/// The label of a group member: "display (name)", the invalid account text,
/// or the name itself while unknown.
pub open spec fn member_label_text(cache: Map<Seq<char>, Option<String>>, m: Seq<char>) -> Seq<char> {
    match name_state(cache, m) {
        NameState::Known => cache[m]->0@ + " ("@ + m + ")"@,
        NameState::Invalid => invalid_account_text(m),
        NameState::Unknown => m,
    }
}

/// The text members are sorted by, before lower-casing: the display name, an
/// empty text for an invalid account, or the name itself while unknown.
pub open spec fn member_sort_text(cache: Map<Seq<char>, Option<String>>, m: Seq<char>) -> Seq<char> {
    match name_state(cache, m) {
        NameState::Known => cache[m]->0@,
        NameState::Invalid => Seq::empty(),
        NameState::Unknown => m,
    }
}

/// How well the cache knows `cn`.
pub fn lookup_state(cache: &DisplayCache, cn: &str) -> (r: NameState)
    ensures
        r == name_state(cache@, cn@),
{
    match cache.get(cn) {
        None => NameState::Unknown,
        Some(Some(_)) => NameState::Known,
        Some(None) => NameState::Invalid,
    }
}

/// The name shown for the subject `cn` of an access control entry.
pub fn subject_display_name(cache: &DisplayCache, cn: &str) -> (r: String)
    ensures
        r@ == subject_display(cache@, cn@),
{
    proof { reveal_strlit("<invalid account> ("); reveal_strlit(")"); }
    match cache.get(cn) {
        Some(Some(d)) => d.clone(),
        Some(None) => {
            let a = joined("<invalid account> (", cn);
            joined(a.as_str(), ")")
        },
        None => String::from_str(cn),
    }
}

/// The label of the group member `m` and how well it is known.
pub fn member_label(cache: &DisplayCache, m: &str) -> (r: (String, NameState))
    ensures
        r.0@ == member_label_text(cache@, m@),
        r.1 == name_state(cache@, m@),
{
    proof { reveal_strlit("<invalid account> ("); reveal_strlit(")"); reveal_strlit(" ("); }
    match cache.get(m) {
        Some(Some(d)) => {
            let a = joined(d.as_str(), " (");
            let b = joined(a.as_str(), m);
            (joined(b.as_str(), ")"), NameState::Known)
        },
        Some(None) => {
            let a = joined("<invalid account> (", m);
            (joined(a.as_str(), ")"), NameState::Invalid)
        },
        None => (String::from_str(m), NameState::Unknown),
    }
}

/// The label of a user in a search result: "display [id]".
pub fn user_link_label(u: &User) -> (r: String)
    ensures
        r@ == u.display@ + " ["@ + u.id@ + "]"@,
{
    let a = joined(u.display.as_str(), " [");
    let b = joined(a.as_str(), u.id.as_str());
    joined(b.as_str(), "]")
}

/// A member name with the key it is sorted by.
pub struct KeyedName {
    pub key: String,
    pub name: String,
}

impl View for KeyedName {
    type V = (Seq<char>, Seq<char>);

    open spec fn view(&self) -> (Seq<char>, Seq<char>) {
        (self.key@, self.name@)
    }
}

impl SortKey for KeyedName {
    open spec fn goes_before(a: (Seq<char>, Seq<char>), b: (Seq<char>, Seq<char>)) -> bool {
        text_order(a.0, b.0) == Order::Less
    }

    fn goes_before_exec(&self, other: &Self) -> (r: bool) {
        compare_text(self.key.as_str(), other.key.as_str()) == Order::Less
    }
}

/// The members in the order the interface lists them: by lower-cased sort
/// text; members with the same key keep their order.
pub open spec fn member_order(cache: Map<Seq<char>, Option<String>>, members: Seq<Seq<char>>) -> Seq<Seq<char>> {
    stable_sorted::<KeyedName>(
        members.map_values(|m: Seq<char>| (lowercase(member_sort_text(cache, m)), m)),
    ).map_values(|p: (Seq<char>, Seq<char>)| p.1)
}

/// Orders group members as the interface lists them.
pub fn sort_members(cache: &DisplayCache, members: &Vec<String>) -> (r: Vec<String>)
    ensures
        texts_view(r@) == member_order(cache@, texts_view(members@)),
{
    let ghost mv = texts_view(members@);
    let ghost keyed = mv.map_values(|m: Seq<char>| (lowercase(member_sort_text(cache@, m)), m));
    let mut ks: Vec<KeyedName> = Vec::new();
    let n = members.len();
    for i in 0..n
        invariant
            n == members.len(),
            mv == texts_view(members@),
            keyed == mv.map_values(|m: Seq<char>| (lowercase(member_sort_text(cache@, m)), m)),
            views(ks@) == keyed.take(i as int),
            ks@.len() == i,
            keyed.len() == n,
    {
        let m = &members[i];
        let base = match cache.get(m.as_str()) {
            Some(Some(d)) => d.clone(),
            Some(None) => String::new(),
            None => m.clone(),
        };
        assert(base@ == member_sort_text(cache@, m@));
        let key = to_lowercase(base.as_str());
        assert(mv[i as int] == m@);
        let ghost before = ks@;
        ks.push(KeyedName { key, name: m.clone() });
        assert(ks@[i as int]@ == keyed[i as int]);
        assert(views(ks@) =~= keyed.take(i + 1)) by {
            assert forall|t: int| 0 <= t < i + 1 implies views(ks@)[t] == keyed.take(i + 1)[t] by {
                if t < i {
                    assert(ks@[t] == before[t]);
                    assert(views(before)[t] == keyed.take(i as int)[t]);
                }
            }
        }
    }
    assert(keyed.take(n as int) =~= keyed);
    let mut sorted = stable_sort(ks);
    let ghost sv = views(sorted@);
    let mut out: Vec<String> = Vec::new();
    let k = sorted.len();
    let ghost sorted0 = sorted@;
    assert(sorted@ =~= sorted0.skip(0));
    for j in 0..k
        invariant
            k == sorted0.len(),
            sv == views(sorted0),
            sorted@ == sorted0.skip(j as int),
            texts_view(out@) == sv.take(j as int).map_values(|p: (Seq<char>, Seq<char>)| p.1),
            out@.len() == j,
            sv.len() == k,
    {
        let kn = sorted.remove(0);
        assert(kn == sorted0[j as int]);
        assert(sorted@ =~= sorted0.skip(j + 1));
        assert(sv[j as int] == kn@);
        let ghost before = out@;
        out.push(kn.name);
        assert(texts_view(out@) =~= sv.take(j + 1).map_values(|p: (Seq<char>, Seq<char>)| p.1)) by {
            assert forall|t: int| 0 <= t < j + 1 implies texts_view(out@)[t] == sv.take(j + 1).map_values(|p: (Seq<char>, Seq<char>)| p.1)[t] by {
                if t < j {
                    assert(out@[t] == before[t]);
                    assert(texts_view(before)[t] == sv.take(j as int).map_values(|p: (Seq<char>, Seq<char>)| p.1)[t]);
                }
            }
        }
    }
    assert(sv.take(k as int) =~= sv);
    out
}


/// The text an entry of a directory is sorted by in the directory view,
/// before lower-casing: the cached display name of its subject, or an empty
/// text when there is none (no subject, unknown or invalid account).
pub open spec fn entry_sort_text(cache: Map<Seq<char>, Option<String>>, cn: Option<Seq<char>>) -> Seq<char> {
    let c = match cn {
        Some(c) => c,
        None => Seq::empty(),
    };
    match name_state(cache, c) {
        NameState::Known => cache[c]->0@,
        _ => Seq::empty(),
    }
}

/// An entry with the key it is sorted by.
pub struct KeyedEntry {
    pub key: String,
    pub entry: AclEntry,
}

impl View for KeyedEntry {
    type V = (Seq<char>, AclView);

    open spec fn view(&self) -> (Seq<char>, AclView) {
        (self.key@, self.entry@)
    }
}

impl SortKey for KeyedEntry {
    open spec fn goes_before(a: (Seq<char>, AclView), b: (Seq<char>, AclView)) -> bool {
        text_order(a.0, b.0) == Order::Less
    }

    fn goes_before_exec(&self, other: &Self) -> (r: bool) {
        compare_text(self.key.as_str(), other.key.as_str()) == Order::Less
    }
}

/// The entries in the order the directory view lists them: by lower-cased
/// cached display name of their subjects; ties keep their order.
pub open spec fn entries_by_cached_name(cache: Map<Seq<char>, Option<String>>, acls: Seq<AclView>) -> Seq<AclView> {
    stable_sorted::<KeyedEntry>(
        acls.map_values(|e: AclView| (lowercase(entry_sort_text(cache, e.cn)), e)),
    ).map_values(|p: (Seq<char>, AclView)| p.1)
}

/// Orders the entries of a directory as the directory view lists them.
pub fn sort_entries_by_cached_name(cache: &DisplayCache, acls: Vec<AclEntry>) -> (r: Vec<AclEntry>)
    ensures
        views(r@) == entries_by_cached_name(cache@, views(acls@)),
{
    let ghost av = views(acls@);
    let ghost a0 = acls@;
    let ghost keyed = av.map_values(|e: AclView| (lowercase(entry_sort_text(cache@, e.cn)), e));
    let mut rest = acls;
    let mut ks: Vec<KeyedEntry> = Vec::new();
    let n = rest.len();
    assert(rest@ =~= a0.skip(0));
    for i in 0..n
        invariant
            n == a0.len(),
            av == views(a0),
            rest@ == a0.skip(i as int),
            keyed == av.map_values(|e: AclView| (lowercase(entry_sort_text(cache@, e.cn)), e)),
            views(ks@) == keyed.take(i as int),
            ks@.len() == i,
            keyed.len() == n,
    {
        let e = rest.remove(0);
        assert(e == a0[i as int]);
        assert(rest@ =~= a0.skip(i + 1));
        proof { reveal_strlit(""); }
        assert(""@ =~= Seq::<char>::empty());
        let base = match &e.qualifier_cn {
            Some(c) => match cache.get(c.as_str()) {
                Some(Some(d)) => d.clone(),
                _ => String::new(),
            },
            None => match cache.get("") {
                Some(Some(d)) => d.clone(),
                _ => String::new(),
            },
        };
        assert(base@ == entry_sort_text(cache@, opt_view(e.qualifier_cn)));
        let key = to_lowercase(base.as_str());
        let ghost before = ks@;
        ks.push(KeyedEntry { key, entry: e });
        assert(ks@[i as int]@ == keyed[i as int]);
        assert(views(ks@) =~= keyed.take(i + 1)) by {
            assert forall|t: int| 0 <= t < i + 1 implies views(ks@)[t] == keyed.take(i + 1)[t] by {
                if t < i {
                    assert(ks@[t] == before[t]);
                    assert(views(before)[t] == keyed.take(i as int)[t]);
                }
            }
        }
    }
    assert(keyed.take(n as int) =~= keyed);
    let mut sorted = stable_sort(ks);
    let ghost sorted0 = sorted@;
    let ghost sv = views(sorted0);
    let mut out: Vec<AclEntry> = Vec::new();
    let k = sorted.len();
    assert(sorted@ =~= sorted0.skip(0));
    for j in 0..k
        invariant
            k == sorted0.len(),
            sv == views(sorted0),
            sorted@ == sorted0.skip(j as int),
            views(out@) == sv.take(j as int).map_values(|p: (Seq<char>, AclView)| p.1),
            out@.len() == j,
            sv.len() == k,
    {
        let ke = sorted.remove(0);
        assert(ke == sorted0[j as int]);
        assert(sorted@ =~= sorted0.skip(j + 1));
        assert(sv[j as int] == ke@);
        let ghost before = out@;
        out.push(ke.entry);
        assert(views(out@) =~= sv.take(j + 1).map_values(|p: (Seq<char>, AclView)| p.1)) by {
            assert forall|t: int| 0 <= t < j + 1 implies views(out@)[t] == sv.take(j + 1).map_values(|p: (Seq<char>, AclView)| p.1)[t] by {
                if t < j {
                    assert(out@[t] == before[t]);
                    assert(views(before)[t] == sv.take(j as int).map_values(|p: (Seq<char>, AclView)| p.1)[t]);
                }
            }
        }
    }
    assert(sv.take(k as int) =~= sv);
    out
}


/// Ordering keyed names by key is a strict weak order.
pub proof fn lemma_keyed_name_strict_weak()
    ensures
        strict_weak::<KeyedName>(),
{
    assert forall|a: (Seq<char>, Seq<char>), b: (Seq<char>, Seq<char>), c: (Seq<char>, Seq<char>)| KeyedName::goes_before(a, b) implies
        !KeyedName::goes_before(b, a) && (KeyedName::goes_before(a, c) || KeyedName::goes_before(c, b)) by {
        lemma_text_less_strict_weak(a.0, b.0, c.0);
    }
}

/// Group members are listed in order: no member comes before one whose
/// lower-cased sort text precedes its own.
pub proof fn law_member_list_sorted(cache: Map<Seq<char>, Option<String>>, members: Seq<Seq<char>>)
    ensures
        ({
            let r = member_order(cache, members);
            forall|i: int, j: int| 0 <= i < j < r.len() ==> text_order(
                lowercase(member_sort_text(cache, #[trigger] r[j])),
                lowercase(member_sort_text(cache, #[trigger] r[i])),
            ) != Order::Less
        }),
{
    broadcast use vstd::seq_lib::to_multiset_contains;
    let keyed = members.map_values(|m: Seq<char>| (lowercase(member_sort_text(cache, m)), m));
    let sorted = stable_sorted::<KeyedName>(keyed);
    lemma_keyed_name_strict_weak();
    law_stable_sort_sorted::<KeyedName>(keyed);
    law_stable_sort_permutes::<KeyedName>(keyed);
    let r = member_order(cache, members);
    assert forall|k: int| 0 <= k < sorted.len() implies (#[trigger] sorted[k]).0 == lowercase(member_sort_text(cache, sorted[k].1)) by {
        assert(sorted.contains(sorted[k]));
        assert(sorted.to_multiset().count(sorted[k]) > 0);
        assert(keyed.contains(sorted[k]));
        let m = choose|m: int| 0 <= m < keyed.len() && keyed[m] == sorted[k];
        assert(keyed[m] == (lowercase(member_sort_text(cache, members[m])), members[m]));
    }
    assert forall|i: int, j: int| 0 <= i < j < r.len() implies text_order(
        lowercase(member_sort_text(cache, #[trigger] r[j])),
        lowercase(member_sort_text(cache, #[trigger] r[i])),
    ) != Order::Less by {
        assert(r[i] == sorted[i].1);
        assert(r[j] == sorted[j].1);
        assert(!KeyedName::goes_before(sorted[j], sorted[i]));
        assert(sorted[i].0 == lowercase(member_sort_text(cache, sorted[i].1)));
        assert(sorted[j].0 == lowercase(member_sort_text(cache, sorted[j].1)));
    }
}

/// Ordering keyed entries by key is a strict weak order.
proof fn lemma_keyed_entry_strict_weak()
    ensures
        strict_weak::<KeyedEntry>(),
{
    assert forall|a: (Seq<char>, AclView), b: (Seq<char>, AclView), c: (Seq<char>, AclView)| KeyedEntry::goes_before(a, b) implies
        !KeyedEntry::goes_before(b, a) && (KeyedEntry::goes_before(a, c) || KeyedEntry::goes_before(c, b)) by {
        lemma_text_less_strict_weak(a.0, b.0, c.0);
    }
}

/// The entries of a directory are listed by the lower-cased display name the
/// cache holds for their subject (an empty name when the cache has none for
/// it): no entry comes after one whose name it precedes.
pub proof fn law_entries_by_cached_display_name(cache: Map<Seq<char>, Option<String>>, acls: Seq<AclView>)
    ensures
        ({
            let r = entries_by_cached_name(cache, acls);
            let shown = |e: AclView| {
                let c = match e.cn {
                    Some(c) => c,
                    None => Seq::<char>::empty(),
                };
                if cache.contains_key(c) && cache[c] is Some {
                    cache[c]->0@
                } else {
                    Seq::<char>::empty()
                }
            };
            forall|i: int, j: int| 0 <= i < j < r.len() ==> text_order(
                lowercase(shown(#[trigger] r[j])),
                lowercase(shown(#[trigger] r[i])),
            ) != Order::Less
        }),
{
    broadcast use vstd::seq_lib::to_multiset_contains;
    let keyed = acls.map_values(|e: AclView| (lowercase(entry_sort_text(cache, e.cn)), e));
    let sorted = stable_sorted::<KeyedEntry>(keyed);
    lemma_keyed_entry_strict_weak();
    law_stable_sort_sorted::<KeyedEntry>(keyed);
    law_stable_sort_permutes::<KeyedEntry>(keyed);
    let r = entries_by_cached_name(cache, acls);
    assert forall|k: int| 0 <= k < sorted.len() implies (#[trigger] sorted[k]).0 == lowercase(entry_sort_text(cache, sorted[k].1.cn)) by {
        assert(sorted.contains(sorted[k]));
        assert(sorted.to_multiset().count(sorted[k]) > 0);
        assert(keyed.contains(sorted[k]));
        let m = choose|m: int| 0 <= m < keyed.len() && keyed[m] == sorted[k];
        assert(keyed[m] == (lowercase(entry_sort_text(cache, acls[m].cn)), acls[m]));
    }
    assert forall|i: int, j: int| 0 <= i < j < r.len() implies text_order(
        lowercase(entry_sort_text(cache, (#[trigger] r[j]).cn)),
        lowercase(entry_sort_text(cache, (#[trigger] r[i]).cn)),
    ) != Order::Less by {
        assert(r[i] == sorted[i].1);
        assert(r[j] == sorted[j].1);
        assert(!KeyedEntry::goes_before(sorted[j], sorted[i]));
    }
}

/// Group members are listed by lower-cased display name: the name the cache
/// holds for a member, an empty name for an account the API does not know,
/// and the member's own name while its display name is unknown. No member
/// comes after one whose name it precedes.
pub proof fn law_members_by_display_name(cache: Map<Seq<char>, Option<String>>, members: Seq<Seq<char>>)
    ensures
        ({
            let r = member_order(cache, members);
            let shown = |m: Seq<char>| if !cache.contains_key(m) {
                m
            } else if cache[m] is Some {
                cache[m]->0@
            } else {
                Seq::<char>::empty()
            };
            forall|i: int, j: int| 0 <= i < j < r.len() ==> text_order(
                lowercase(shown(#[trigger] r[j])),
                lowercase(shown(#[trigger] r[i])),
            ) != Order::Less
        }),
{
    law_member_list_sorted(cache, members);
}

} // verus!
