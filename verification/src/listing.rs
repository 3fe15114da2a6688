//! Preparing the directory list the API gives for display: only the entries
//! the interface edits are kept, each is given the name shown for its
//! subject, the directories are sorted by name, and the display names not
//! known yet are asked for, once each.

use vstd::prelude::*;
use vstd::hash_map::StringHashMap;

use crate::acl::{AclEntry, AclView};
use crate::directory::{
    Directory, DirectoryView, law_same_names_keep_order, lemma_directory_strict_weak, named_in_order,
    sort_directories,
};
use crate::sort::{law_stable_sort_sorted, stable_sorted, views};
use crate::text::{Order, text_order, texts_view};
use crate::user::{DisplayCache, invalid_account_text, subject_display, subject_display_name};

verus! {

/// Whether the interface lists the entry: a user or group entry with some
/// permission.
pub open spec fn listed_view(e: AclView) -> bool {
    e.perm != 0 && (e.qualifier is User || e.qualifier is Group)
}

/// The entries of `s` the interface lists, in their order.
pub open spec fn listed_views(s: Seq<AclView>) -> Seq<AclView>
    decreases s.len(),
{
    if s.len() == 0 {
        s
    } else if listed_view(s.last()) {
        listed_views(s.drop_last()).push(s.last())
    } else {
        listed_views(s.drop_last())
    }
}

/// Whether every listed entry of `s` names its subject.
pub open spec fn listed_named(s: Seq<AclView>) -> bool {
    forall|i: int| 0 <= i < s.len() && listed_view(#[trigger] s[i]) ==> s[i].cn is Some
}

/// The entry with the name shown for its subject.
pub open spec fn shown_entry(e: AclView, cache: Map<Seq<char>, Option<String>>) -> AclView {
    AclView { display: Some(subject_display(cache, e.cn->0)), ..e }
}

/// The subjects of the listed entries of `s` that `cache` does not know.
pub open spec fn unknown_subjects(s: Seq<AclView>, cache: Map<Seq<char>, Option<String>>) -> Set<Seq<char>> {
    Set::new(|cn: Seq<char>| !cache.contains_key(cn) && exists|j: int| 0 <= j < s.len() && listed_view(#[trigger] s[j]) && s[j].cn == Some(cn))
}

/// The directory as the interface shows it: its listed entries, each with
/// the name shown for its subject.
pub open spec fn prepared_directory(d: DirectoryView, cache: Map<Seq<char>, Option<String>>) -> DirectoryView {
    DirectoryView { acls: listed_views(d.acls).map_values(|e: AclView| shown_entry(e, cache)), ..d }
}

/// The directory list as the interface shows it: each directory prepared,
/// then the list sorted by name.
pub open spec fn prepared_directories(ds: Seq<DirectoryView>, cache: Map<Seq<char>, Option<String>>) -> Seq<DirectoryView> {
    stable_sorted::<Directory>(ds.map_values(|d: DirectoryView| prepared_directory(d, cache)))
}

/// The subjects of the listed entries of all directories of `ds` that `cache`
/// does not know.
pub open spec fn unknown_in_directories(ds: Seq<DirectoryView>, cache: Map<Seq<char>, Option<String>>) -> Set<Seq<char>> {
    Set::new(|cn: Seq<char>| exists|i: int| 0 <= i < ds.len() && #[trigger] unknown_subjects(ds[i].acls, cache).contains(cn))
}

/// Whether every listed entry of every directory of `ds` names its subject.
pub open spec fn directories_named(ds: Seq<DirectoryView>) -> bool {
    forall|i: int| 0 <= i < ds.len() ==> listed_named(#[trigger] ds[i].acls)
}

/// Whether `fetches` asks each name once, each one a name of `requested`.
pub open spec fn fetches_within(fetches: Seq<Seq<char>>, requested: Set<Seq<char>>) -> bool {
    fetches.no_duplicates() && forall|i: int| 0 <= i < fetches.len() ==> requested.contains(#[trigger] fetches[i])
}

proof fn lemma_unknown_push(s: Seq<AclView>, e: AclView, cache: Map<Seq<char>, Option<String>>)
    ensures
        unknown_subjects(s.push(e), cache) == if listed_view(e) && !cache.contains_key(e.cn->0) && e.cn is Some {
            unknown_subjects(s, cache).insert(e.cn->0)
        } else {
            unknown_subjects(s, cache)
        },
{
    let t = s.push(e);
    let a = unknown_subjects(t, cache);
    let b = if listed_view(e) && !cache.contains_key(e.cn->0) && e.cn is Some {
        unknown_subjects(s, cache).insert(e.cn->0)
    } else {
        unknown_subjects(s, cache)
    };
    assert forall|cn: Seq<char>| a.contains(cn) == b.contains(cn) by {
        if a.contains(cn) {
            let j = choose|j: int| 0 <= j < t.len() && listed_view(#[trigger] t[j]) && t[j].cn == Some(cn);
            if j < s.len() {
                assert(s[j] == t[j]);
                assert(unknown_subjects(s, cache).contains(cn));
            }
        }
        if unknown_subjects(s, cache).contains(cn) {
            let j = choose|j: int| 0 <= j < s.len() && listed_view(#[trigger] s[j]) && s[j].cn == Some(cn);
            assert(t[j] == s[j]);
        }
        if listed_view(e) && e.cn == Some(cn) && !cache.contains_key(cn) {
            assert(t[s.len() as int] == e);
        }
    }
    assert(a =~= b);
}

/// Prepares the entries of one directory: keeps the listed ones, gives each
/// the name shown for its subject, and asks (in `fetches`, recording them in
/// `requests`) for the display names neither known nor already asked for.
pub fn prepare_entries(
    acls: &Vec<AclEntry>,
    cache: &DisplayCache,
    requests: &mut StringHashMap<()>,
    fetches: &mut Vec<String>,
) -> (r: Vec<AclEntry>)
    requires
        listed_named(views(acls@)),
        fetches_within(texts_view(old(fetches)@), old(requests)@.dom()),
    ensures
        views(r@) == listed_views(views(acls@)).map_values(|e: AclView| shown_entry(e, cache@)),
        final(requests)@.dom() == old(requests)@.dom() + unknown_subjects(views(acls@), cache@),
        fetches_within(texts_view(final(fetches)@), final(requests)@.dom()),
        texts_view(final(fetches)@).to_set() == texts_view(old(fetches)@).to_set() + (
        final(requests)@.dom() - old(requests)@.dom()),
{
    let ghost av = views(acls@);
    let ghost req0 = requests@.dom();
    let ghost f0 = texts_view(fetches@);
    let mut out: Vec<AclEntry> = Vec::new();
    let n = acls.len();
    assert(av.take(0) =~= Seq::<AclView>::empty());
    assert(unknown_subjects(av.take(0), cache@) =~= Set::empty());
    assert(requests@.dom() =~= req0 + Set::empty());
    assert(texts_view(fetches@).to_set() =~= f0.to_set() + (requests@.dom() - req0));
    for i in 0..n
        invariant
            n == acls.len(),
            av == views(acls@),
            listed_named(av),
            views(out@) == listed_views(av.take(i as int)).map_values(|e: AclView| shown_entry(e, cache@)),
            requests@.dom() == req0 + unknown_subjects(av.take(i as int), cache@),
            fetches_within(texts_view(fetches@), requests@.dom()),
            texts_view(fetches@).to_set() == f0.to_set() + (requests@.dom() - req0),
    {
        let ghost p = av.take(i + 1);
        assert(p.drop_last() =~= av.take(i as int));
        assert(p.last() == av[i as int]);
        assert(av[i as int] == acls@[i as int]@);
        proof { lemma_unknown_push(av.take(i as int), av[i as int], cache@); }
        assert(p == av.take(i as int).push(av[i as int]));
        let e = &acls[i];
        if e.is_listed() {
            assert(listed_view(av[i as int]));
            let cn = match &e.qualifier_cn {
                Some(c) => c.clone(),
                None => { assert(false); String::new() },
            };
            let display = subject_display_name(cache, cn.as_str());
            if !cache.contains_key(cn.as_str()) && !requests.contains_key(cn.as_str()) {
                let ghost fb = texts_view(fetches@);
                requests.insert(cn.clone(), ());
                fetches.push(cn.clone());
                assert(texts_view(fetches@) =~= fb.push(cn@));
                proof {
                    let fa = texts_view(fetches@);
                    assert forall|x: Seq<char>| fa.to_set().contains(x) == fb.to_set().insert(cn@).contains(x) by {
                        if fa.contains(x) {
                            let k = choose|k: int| 0 <= k < fa.len() && fa[k] == x;
                            if k < fb.len() {
                                assert(fb[k] == x);
                            }
                        }
                        if fb.contains(x) {
                            let k = choose|k: int| 0 <= k < fb.len() && fb[k] == x;
                            assert(fa[k] == x);
                        }
                        assert(fa[fb.len() as int] == cn@);
                    }
                    assert(fa.to_set() =~= fb.to_set().insert(cn@));
                }
            }
            let ghost before = out@;
            out.push(AclEntry {
                qualifier: e.qualifier,
                qualifier_cn: Some(cn),
                qualifier_display: Some(display),
                perm: e.perm,
            });
            assert(views(out@) =~= views(before).push(shown_entry(av[i as int], cache@)));
        }
        assert(requests@.dom() =~= req0 + unknown_subjects(p, cache@));
        assert(texts_view(fetches@).to_set() =~= f0.to_set() + (requests@.dom() - req0));
    }
    assert(av.take(n as int) =~= av);
    out
}


/// Prepares the directory list the API gave for display (see
/// `prepared_directories`), asking for the display names neither known nor
/// already asked for.
pub fn prepare_directories(
    dirs: Vec<Directory>,
    cache: &DisplayCache,
    requests: &mut StringHashMap<()>,
    fetches: &mut Vec<String>,
) -> (r: Vec<Directory>)
    requires
        directories_named(views(dirs@)),
        fetches_within(texts_view(old(fetches)@), old(requests)@.dom()),
    ensures
        views(r@) == prepared_directories(views(dirs@), cache@),
        final(requests)@.dom() == old(requests)@.dom() + unknown_in_directories(views(dirs@), cache@),
        fetches_within(texts_view(final(fetches)@), final(requests)@.dom()),
        texts_view(final(fetches)@).to_set() == texts_view(old(fetches)@).to_set() + (
        final(requests)@.dom() - old(requests)@.dom()),
{
    let ghost dv = views(dirs@);
    let ghost prepared = dv.map_values(|d: DirectoryView| prepared_directory(d, cache@));
    let ghost req0 = requests@.dom();
    let ghost f0 = texts_view(fetches@);
    let ghost d0 = dirs@;
    let mut rest = dirs;
    let mut out: Vec<Directory> = Vec::new();
    let n = rest.len();
    assert(rest@ =~= d0.skip(0));
    assert(unknown_in_directories(dv.take(0), cache@) =~= Set::empty());
    assert(requests@.dom() =~= req0 + Set::empty());
    assert(texts_view(fetches@).to_set() =~= f0.to_set() + (requests@.dom() - req0));
    for i in 0..n
        invariant
            n == d0.len(),
            dv == views(d0),
            directories_named(dv),
            prepared == dv.map_values(|d: DirectoryView| prepared_directory(d, cache@)),
            rest@ == d0.skip(i as int),
            views(out@) == prepared.take(i as int),
            out@.len() == i,
            prepared.len() == n,
            requests@.dom() == req0 + unknown_in_directories(dv.take(i as int), cache@),
            fetches_within(texts_view(fetches@), requests@.dom()),
            texts_view(fetches@).to_set() == f0.to_set() + (requests@.dom() - req0),
    {
        let d = rest.remove(0);
        assert(d == d0[i as int]);
        assert(rest@ =~= d0.skip(i + 1));
        assert(dv[i as int] == d@);
        assert(listed_named(dv[i as int].acls));
        let ghost rq = requests@.dom();
        let acls = prepare_entries(&d.acls, cache, requests, fetches);
        let ghost before = out@;
        out.push(Directory { name: d.name, acls, quota: d.quota, valid: d.valid });
        assert(views(out@) =~= prepared.take(i + 1)) by {
            assert(out@[i as int]@ == prepared[i as int]);
            assert forall|t: int| 0 <= t < i implies views(out@)[t] == prepared.take(i + 1)[t] by {
                assert(out@[t] == before[t]);
                assert(views(before)[t] == prepared.take(i as int)[t]);
            }
        }
        assert(requests@.dom() =~= req0 + unknown_in_directories(dv.take(i + 1), cache@)) by {
            let u = unknown_in_directories(dv.take(i + 1), cache@);
            let v = unknown_in_directories(dv.take(i as int), cache@);
            let w = unknown_subjects(dv[i as int].acls, cache@);
            assert forall|cn: Seq<char>| u.contains(cn) == (v.contains(cn) || w.contains(cn)) by {
                if u.contains(cn) {
                    let k = choose|k: int| 0 <= k < i + 1 && #[trigger] unknown_subjects(dv.take(i + 1)[k].acls, cache@).contains(cn);
                    if k < i {
                        assert(dv.take(i as int)[k] == dv.take(i + 1)[k]);
                    }
                }
                if v.contains(cn) {
                    let k = choose|k: int| 0 <= k < i && #[trigger] unknown_subjects(dv.take(i as int)[k].acls, cache@).contains(cn);
                    assert(dv.take(i as int)[k] == dv.take(i + 1)[k]);
                }
                if w.contains(cn) {
                    assert(dv.take(i + 1)[i as int] == dv[i as int]);
                }
            }
        }
        assert(texts_view(fetches@).to_set() =~= f0.to_set() + (requests@.dom() - req0));
    }
    assert(prepared.take(n as int) =~= prepared);
    assert(dv.take(n as int) =~= dv);
    sort_directories(out)
}


/// The directory list is shown sorted by name: no directory comes before one
/// whose name precedes its own.
pub proof fn law_directory_list_sorted(ds: Seq<DirectoryView>, cache: Map<Seq<char>, Option<String>>)
    ensures
        forall|i: int, j: int| 0 <= i < j < prepared_directories(ds, cache).len() ==>
            text_order(#[trigger] prepared_directories(ds, cache)[j].name, #[trigger] prepared_directories(ds, cache)[i].name) != Order::Less,
{
    lemma_directory_strict_weak();
    law_stable_sort_sorted::<Directory>(ds.map_values(|d: DirectoryView| prepared_directory(d, cache)));
}

/// A display name once received is used: a directory list that arrives later
/// asks no more for that user, and shows the user's entries under the name
/// received, or as an invalid account when the API knew no such account.
pub proof fn law_received_display_name_used(
    ds: Seq<DirectoryView>,
    cache: Map<Seq<char>, Option<String>>,
    user: Seq<char>,
    received: Option<String>,
)
    ensures
        !unknown_in_directories(ds, cache.insert(user, received)).contains(user),
        subject_display(cache.insert(user, received), user) == match received {
            Some(d) => d@,
            None => invalid_account_text(user),
        },
{
    let c = cache.insert(user, received);
    assert forall|i: int| 0 <= i < ds.len() implies !(#[trigger] unknown_subjects(ds[i].acls, c)).contains(user) by {
        assert(c.contains_key(user));
    }
}

/// The directory list keeps directories with the same name in the order the
/// API gave them.
pub proof fn law_directory_list_keeps_same_names_in_order(
    ds: Seq<DirectoryView>,
    cache: Map<Seq<char>, Option<String>>,
    name: Seq<char>,
)
    ensures
        named_in_order(prepared_directories(ds, cache), name)
            == named_in_order(ds.map_values(|d: DirectoryView| prepared_directory(d, cache)), name),
{
    law_same_names_keep_order(ds.map_values(|d: DirectoryView| prepared_directory(d, cache)), name);
}

} // verus!
