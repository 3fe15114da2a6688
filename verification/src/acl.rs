//! Access control list entries of a directory and the edits the interface
//! makes to a directory's list.

use vstd::prelude::*;

use crate::sort::{SortKey, law_stable_sort_sorted, stable_sort, stable_sorted, strict_weak, views};
use crate::text::{
    Order, compare_opt_text, copy_opt_text, decimal, decimal_string, joined,
    lemma_opt_text_less_strict_weak, opt_text_order, opt_view, same_text,
};

verus! {

/// The subject of an access control list entry.
#[derive(Clone, Copy, Debug, PartialEq, Eq, Structural, PartialOrd, Ord, Hash)]
pub enum Qualifier {
    /// Unrecognized/corrupt entries
    Undefined,
    /// Permissions for owner of the file
    UserObj,
    /// Permissions for owning group of the file
    GroupObj,
    /// Permissions for everyone else not covered by the ACL
    Other,
    /// Permissions for user with UID `u32` value
    User(u32),
    /// Permissions for group with GID `u32` value
    Group(u32),
    /// Auto-generated entry
    Mask,
}

/// The text shown for a qualifier.
pub open spec fn qualifier_text(q: Qualifier) -> Seq<char> {
    match q {
        Qualifier::Undefined => "Undefined"@,
        Qualifier::UserObj => "UserObj"@,
        Qualifier::GroupObj => "GroupObj"@,
        Qualifier::Other => "Other"@,
        Qualifier::User(u) => "User:"@ + decimal(u as nat),
        Qualifier::Group(g) => "Group:"@ + decimal(g as nat),
        Qualifier::Mask => "Mask"@,
    }
}

impl Qualifier {
    /// The text shown for the qualifier (what `to_string` gives).
    pub fn label(&self) -> (r: String)
        ensures
            r@ == qualifier_text(*self),
    {
        match self {
            Qualifier::Undefined => String::from_str("Undefined"),
            Qualifier::UserObj => String::from_str("UserObj"),
            Qualifier::GroupObj => String::from_str("GroupObj"),
            Qualifier::Other => String::from_str("Other"),
            Qualifier::User(u) => {
                let d = decimal_string(*u as u64);
                joined("User:", d.as_str())
            },
            Qualifier::Group(g) => {
                let d = decimal_string(*g as u64);
                joined("Group:", d.as_str())
            },
            Qualifier::Mask => String::from_str("Mask"),
        }
    }
}

/// One entry of a directory's access control list.
#[derive(Clone, Debug, PartialEq, Eq)]
pub struct AclEntry {
    /// The subject of the permission grant.
    pub qualifier: Qualifier,
    /// The user or group name when the qualifier is `User` or `Group`.
    pub qualifier_cn: Option<String>,
    /// The name shown for the subject.
    pub qualifier_display: Option<String>,
    /// The permission bits (read 4, write 2, execute 1).
    pub perm: u32,
}

/// The access control list of a directory, as sent to the API to replace it.
#[derive(Clone, Debug, PartialEq, Eq)]
pub struct SetAcl {
    pub name: String,
    pub acls: Vec<AclEntry>,
}

/// Whether an entry is one the interface lists and edits: a user or group
/// entry with some permission.
pub open spec fn is_listed(e: AclEntry) -> bool {
    e.perm != 0 && (e.qualifier is User || e.qualifier is Group)
}

/// The entries of `s` that the interface lists, in their order.
pub open spec fn listed_entries(s: Seq<AclEntry>) -> Seq<AclEntry>
    decreases s.len(),
{
    if s.len() == 0 {
        s
    } else if is_listed(s.last()) {
        listed_entries(s.drop_last()).push(s.last())
    } else {
        listed_entries(s.drop_last())
    }
}

/// Whether permission bits grant no write access, as the interface decides it.
pub open spec fn perm_is_read_only(p: u32) -> bool {
    p == 0 || p == 1 || p == 4 || p == 5
}

/// The permission bits with the write bit flipped.
pub open spec fn write_toggled(p: u32) -> u32 {
    if p % 4 >= 2 {
        (p - 2) as u32
    } else {
        (p + 2) as u32
    }
}

/// Whether the entry names the subject `cn`.
pub open spec fn names_subject(e: AclEntry, cn: Seq<char>) -> bool {
    e.qualifier_cn matches Some(c) && c@ == cn
}

/// Whether every entry of `s` names a subject.
pub open spec fn all_named(s: Seq<AclEntry>) -> bool {
    forall|i: int| 0 <= i < s.len() ==> (#[trigger] s[i]).qualifier_cn is Some
}

/// The entries of `s` that do not name the subject `cn`, in their order.
pub open spec fn without_subject(s: Seq<AclEntry>, cn: Seq<char>) -> Seq<AclEntry>
    decreases s.len(),
{
    if s.len() == 0 {
        s
    } else if names_subject(s.last(), cn) {
        without_subject(s.drop_last(), cn)
    } else {
        without_subject(s.drop_last(), cn).push(s.last())
    }
}

/// Whether `s` holds a user entry for the user `id`.
pub open spec fn has_user_entry(s: Seq<AclEntry>, id: Seq<char>) -> bool {
    exists|i: int| 0 <= i < s.len() && (#[trigger] s[i]).qualifier is User && names_subject(s[i], id)
}

/// Whether `s` holds a group entry for the group `cn`.
pub open spec fn has_group_entry(s: Seq<AclEntry>, cn: Seq<char>) -> bool {
    exists|i: int| 0 <= i < s.len() && (#[trigger] s[i]).qualifier is Group && names_subject(s[i], cn)
}

/// Whether every user entry of `s` names its user.
pub open spec fn users_named(s: Seq<AclEntry>) -> bool {
    forall|i: int| 0 <= i < s.len() && (#[trigger] s[i]).qualifier is User ==> s[i].qualifier_cn is Some
}

/// Whether every group entry of `s` names its group.
pub open spec fn groups_named(s: Seq<AclEntry>) -> bool {
    forall|i: int| 0 <= i < s.len() && (#[trigger] s[i]).qualifier is Group ==> s[i].qualifier_cn is Some
}

/// The entry the interface adds for a user: full permissions, shown by its id.
pub open spec fn new_user_entry(id: String) -> AclEntry {
    AclEntry { qualifier: Qualifier::User(0), qualifier_cn: Some(id), qualifier_display: Some(id), perm: 7 }
}

/// The entry the interface adds for a group: full permissions, shown by its name.
pub open spec fn new_group_entry(cn: String) -> AclEntry {
    AclEntry { qualifier: Qualifier::Group(0), qualifier_cn: Some(cn), qualifier_display: Some(cn), perm: 7 }
}

/// `s` with an entry for the user `id` added, unless it holds one already.
pub open spec fn with_user_entry(s: Seq<AclEntry>, id: String) -> Seq<AclEntry> {
    if has_user_entry(s, id@) {
        s
    } else {
        s.push(new_user_entry(id))
    }
}

/// `s` with an entry for the group `cn` added, unless it holds one already.
pub open spec fn with_group_entry(s: Seq<AclEntry>, cn: String) -> Seq<AclEntry> {
    if has_group_entry(s, cn@) {
        s
    } else {
        s.push(new_group_entry(cn))
    }
}

/// The entry with its write permission flipped when it names `cn`.
pub open spec fn toggled_entry(e: AclEntry, cn: Seq<char>) -> AclEntry {
    if names_subject(e, cn) {
        AclEntry { perm: write_toggled(e.perm), ..e }
    } else {
        e
    }
}

/// The entries of `s` with the write permission of those naming `cn` flipped.
pub open spec fn toggled_entries(s: Seq<AclEntry>, cn: Seq<char>) -> Seq<AclEntry> {
    s.map_values(|e: AclEntry| toggled_entry(e, cn))
}

/// Whether `cn` is the name of the space's administrator `admin`, whose
/// access control entries the interface does not let the user change.
pub open spec fn is_admin_name(admin: Option<String>, cn: Seq<char>) -> bool {
    admin matches Some(a) && a@ == cn
}

/// A user is added to an access control list at most once: after adding it
/// the list holds a user entry for it, and adding it again changes nothing.
pub proof fn law_user_added_once(s: Seq<AclEntry>, id: String)
    ensures
        has_user_entry(with_user_entry(s, id), id@),
        with_user_entry(with_user_entry(s, id), id) == with_user_entry(s, id),
{
    law_added_user_present(s, id);
}

/// A group is added to an access control list at most once: after adding it
/// the list holds a group entry for it, and adding it again changes nothing.
pub proof fn law_group_added_once(s: Seq<AclEntry>, cn: String)
    ensures
        has_group_entry(with_group_entry(s, cn), cn@),
        with_group_entry(with_group_entry(s, cn), cn) == with_group_entry(s, cn),
{
    law_added_group_present(s, cn);
}

/// The list after the user deletes the entries of `cn`: unchanged for the
/// administrator's name, which cannot be deleted.
pub open spec fn removal_result(s: Seq<AclEntry>, cn: Seq<char>, admin: Option<String>) -> Seq<AclEntry> {
    if is_admin_name(admin, cn) {
        s
    } else {
        without_subject(s, cn)
    }
}

/// The list after the user flips the read-only box of `cn`: unchanged for
/// the administrator's name, whose box is not offered.
pub open spec fn toggle_result(s: Seq<AclEntry>, cn: Seq<char>, admin: Option<String>) -> Seq<AclEntry> {
    if is_admin_name(admin, cn) {
        s
    } else {
        toggled_entries(s, cn)
    }
}

/// The administrator's entries survive the user's edits: deleting the
/// entries of a subject, or flipping their read-only box, keeps every entry
/// naming the administrator as it was.
pub proof fn law_admin_entries_kept(s: Seq<AclEntry>, cn: Seq<char>, admin: String)
    ensures
        forall|e: AclEntry| s.contains(e) && names_subject(e, admin@)
            ==> #[trigger] removal_result(s, cn, Some(admin)).contains(e),
        toggle_result(s, cn, Some(admin)).len() == s.len(),
        forall|i: int| 0 <= i < s.len() && names_subject(#[trigger] s[i], admin@)
            ==> toggle_result(s, cn, Some(admin))[i] == s[i],
{
    law_remove_subject(s, cn);
}

/// For standard permission bits (below 8), flipping the write permission
/// flips whether the entry is read-only, and flipping it twice restores the
/// bits.
pub proof fn law_read_only_toggle(p: u32)
    requires
        p < 8,
    ensures
        perm_is_read_only(write_toggled(p)) == !perm_is_read_only(p),
        write_toggled(write_toggled(p)) == p,
{
}

/// Read-only means without the write bit: for the permission bits (read 4,
/// write 2, execute 1) an entry is read-only exactly when bit 2 is clear,
/// and flipping the read-only box flips exactly that bit.
pub proof fn law_read_only_is_write_bit_clear(p: u32)
    ensures
        p < 8 ==> (perm_is_read_only(p) <==> p & 2 == 0),
        write_toggled(p) == p ^ 2,
{
    assert(p < 8 ==> ((p & 2 == 0) <==> (p == 0 || p == 1 || p == 4 || p == 5))) by (bit_vector);
    assert(p % 4 >= 2 <==> p & 2 == 2) by (bit_vector);
    assert(p & 2 == 2 ==> (p - 2) as u32 == p ^ 2) by (bit_vector);
    assert(p & 2 != 2 ==> (p + 2) as u32 == p ^ 2) by (bit_vector);
}

/// The listed entries are exactly the user and group entries that grant
/// some permission: each kept entry is one, every such entry of the list is
/// kept, and every other entry is dropped.
pub proof fn law_listed_are_user_and_group_grants(s: Seq<AclEntry>)
    ensures
        forall|e: AclEntry| #[trigger] listed_entries(s).contains(e) <==> (s.contains(e) && e.perm != 0
            && (e.qualifier is User || e.qualifier is Group)),
    decreases s.len(),
{
    if s.len() > 0 {
        let p = s.drop_last();
        law_listed_are_user_and_group_grants(p);
        let l = listed_entries(p);
        assert forall|e: AclEntry| #[trigger] listed_entries(s).contains(e) <==> (s.contains(e) && e.perm != 0
            && (e.qualifier is User || e.qualifier is Group)) by {
            if s.contains(e) {
                let k = choose|k: int| 0 <= k < s.len() && s[k] == e;
                if k < p.len() {
                    assert(p[k] == e);
                    assert(p.contains(e));
                } else {
                    assert(e == s.last());
                }
            }
            if p.contains(e) {
                let k = choose|k: int| 0 <= k < p.len() && p[k] == e;
                assert(s[k] == e);
            }
            if is_listed(s.last()) {
                let t = l.push(s.last());
                assert(t[l.len() as int] == s.last());
                if t.contains(e) {
                    let k = choose|k: int| 0 <= k < t.len() && t[k] == e;
                    if k < l.len() {
                        assert(l[k] == e);
                        assert(l.contains(e));
                    }
                }
                if l.contains(e) {
                    let k = choose|k: int| 0 <= k < l.len() && l[k] == e;
                    assert(t[k] == e);
                }
            }
        }
    }
}

/// Once a user entry has been added for a user, the list has one, so adding
/// the user again adds nothing.
pub proof fn law_added_user_present(s: Seq<AclEntry>, id: String)
    ensures
        has_user_entry(s.push(new_user_entry(id)), id@),
{
    let t = s.push(new_user_entry(id));
    assert(t[s.len() as int] == new_user_entry(id));
}

/// Once a group entry has been added for a group, the list has one, so
/// adding the group again adds nothing.
pub proof fn law_added_group_present(s: Seq<AclEntry>, cn: String)
    ensures
        has_group_entry(s.push(new_group_entry(cn)), cn@),
{
    let t = s.push(new_group_entry(cn));
    assert(t[s.len() as int] == new_group_entry(cn));
}

/// Removing a subject leaves no entry naming it and keeps every other entry.
pub proof fn law_remove_subject(s: Seq<AclEntry>, cn: Seq<char>)
    ensures
        forall|i: int| 0 <= i < without_subject(s, cn).len() ==> !names_subject(#[trigger] without_subject(s, cn)[i], cn),
        forall|e: AclEntry| s.contains(e) && !names_subject(e, cn) ==> #[trigger] without_subject(s, cn).contains(e),
    decreases s.len(),
{
    if s.len() > 0 {
        let p = s.drop_last();
        law_remove_subject(p, cn);
        let w = without_subject(p, cn);
        assert forall|e: AclEntry| s.contains(e) && !names_subject(e, cn) implies #[trigger] without_subject(s, cn).contains(e) by {
            let k = choose|k: int| 0 <= k < s.len() && s[k] == e;
            if k < p.len() {
                assert(p[k] == e);
                assert(p.contains(e));
                assert(w.contains(e));
                let j = choose|j: int| 0 <= j < w.len() && w[j] == e;
                if !names_subject(s.last(), cn) {
                    assert(w.push(s.last())[j] == e);
                }
            } else {
                assert(w.push(s.last())[w.len() as int] == e);
            }
        }
        if !names_subject(s.last(), cn) {
            assert forall|i: int| 0 <= i < without_subject(s, cn).len() implies !names_subject(#[trigger] without_subject(s, cn)[i], cn) by {
                if i < w.len() {
                    assert(w.push(s.last())[i] == w[i]);
                }
            }
        }
    }
}

/// Keeping the listed entries keeps only listed entries, and doing it again
/// changes nothing.
pub proof fn law_listed_entries(s: Seq<AclEntry>)
    ensures
        forall|i: int| 0 <= i < listed_entries(s).len() ==> is_listed(#[trigger] listed_entries(s)[i]),
        listed_entries(listed_entries(s)) == listed_entries(s),
    decreases s.len(),
{
    if s.len() > 0 {
        let p = s.drop_last();
        law_listed_entries(p);
        let l = listed_entries(p);
        if is_listed(s.last()) {
            assert(l.push(s.last()).drop_last() =~= l);
            assert forall|i: int| 0 <= i < listed_entries(s).len() implies is_listed(#[trigger] listed_entries(s)[i]) by {
                if i < l.len() {
                    assert(l.push(s.last())[i] == l[i]);
                }
            }
        }
    }
}

impl AclEntry {
    /// A copy of the entry.
    pub fn duplicate(&self) -> (r: AclEntry)
        ensures
            r == *self,
    {
        AclEntry {
            qualifier: self.qualifier,
            qualifier_cn: copy_opt_text(&self.qualifier_cn),
            qualifier_display: copy_opt_text(&self.qualifier_display),
            perm: self.perm,
        }
    }

    /// Whether the interface lists and edits this entry.
    pub fn is_listed(&self) -> (r: bool)
        ensures
            r == is_listed(*self),
    {
        self.perm != 0 && match self.qualifier {
            Qualifier::User(_) => true,
            Qualifier::Group(_) => true,
            _ => false,
        }
    }

    /// Whether the entry's subject is the administrator `admin`, whose entry
    /// the interface does not let the user change.
    pub fn is_admin(&self, admin: &str) -> (r: bool)
        requires
            self.qualifier_cn is Some,
        ensures
            r == (self.qualifier_cn->0@ == admin@),
    {
        match &self.qualifier_cn {
            Some(c) => same_text(c.as_str(), admin),
            None => false,
        }
    }

    /// Whether the entry grants no write access.
    pub fn is_read_only(&self) -> (r: bool)
        ensures
            r == perm_is_read_only(self.perm),
    {
        self.perm == 0 || self.perm == 1 || self.perm == 4 || self.perm == 5
    }

    /// Flips the write permission of the entry.
    pub fn toggle_read_only(&mut self)
        ensures
            final(self).perm == write_toggled(old(self).perm),
            final(self).qualifier == old(self).qualifier,
            final(self).qualifier_cn == old(self).qualifier_cn,
            final(self).qualifier_display == old(self).qualifier_display,
    {
        if self.perm % 4 >= 2 {
            self.perm = self.perm - 2;
        } else {
            self.perm = self.perm + 2;
        }
    }
}

/// A copy of a list of entries.
pub fn copy_entries(v: &Vec<AclEntry>) -> (r: Vec<AclEntry>)
    ensures
        r@ == v@,
{
    let mut r: Vec<AclEntry> = Vec::new();
    for i in 0..v.len()
        invariant
            r@ == v@.subrange(0, i as int),
    {
        r.push(v[i].duplicate());
        assert(r@ =~= v@.subrange(0, i + 1));
    }
    assert(v@.subrange(0, v.len() as int) =~= v@);
    r
}

/// Keeps the entries the interface lists (user and group entries with some
/// permission), in their order.
pub fn keep_listed(acls: &mut Vec<AclEntry>)
    ensures
        final(acls)@ == listed_entries(old(acls)@),
{
    let mut kept: Vec<AclEntry> = Vec::new();
    let n = acls.len();
    for i in 0..n
        invariant
            n == acls.len(),
            kept@ == listed_entries(acls@.subrange(0, i as int)),
    {
        let ghost p = acls@.subrange(0, i + 1);
        assert(p.drop_last() =~= acls@.subrange(0, i as int));
        if acls[i].is_listed() {
            kept.push(acls[i].duplicate());
        }
    }
    assert(acls@.subrange(0, n as int) =~= acls@);
    *acls = kept;
}

/// Flips the write permission of every entry naming `cn`; the other entries
/// stay as they are.
pub fn toggle_read_only_of(acls: &mut Vec<AclEntry>, cn: &str)
    requires
        all_named(old(acls)@),
    ensures
        final(acls)@.len() == old(acls)@.len(),
        forall|i: int| 0 <= i < old(acls)@.len() ==> {
            let (a, b) = (#[trigger] old(acls)@[i], final(acls)@[i]);
            if names_subject(a, cn@) {
                b.perm == write_toggled(a.perm) && b.qualifier == a.qualifier
                    && b.qualifier_cn == a.qualifier_cn && b.qualifier_display == a.qualifier_display
            } else {
                b == a
            }
        },
        final(acls)@ == toggled_entries(old(acls)@, cn@),
{
    let n = acls.len();
    let ghost before = acls@;
    let mut i: usize = 0;
    while i < n
        invariant
            n == acls.len(),
            before.len() == n,
            all_named(before),
            i <= n,
            forall|j: int| i <= j < n ==> acls@[j] == before[j],
            forall|j: int| 0 <= j < i ==> {
                let (a, b) = (#[trigger] before[j], acls@[j]);
                if names_subject(a, cn@) {
                    b.perm == write_toggled(a.perm) && b.qualifier == a.qualifier
                        && b.qualifier_cn == a.qualifier_cn && b.qualifier_display == a.qualifier_display
                } else {
                    b == a
                }
            },
        decreases n - i,
    {
        let matches = match &acls[i].qualifier_cn {
            Some(c) => same_text(c.as_str(), cn),
            None => false,
        };
        if matches {
            let mut e = acls[i].duplicate();
            e.toggle_read_only();
            acls.set(i, e);
        }
        i = i + 1;
    }
    assert(acls@ =~= toggled_entries(before, cn@));
}

/// Removes every entry naming `cn`; entries without a name stay.
pub fn remove_subject(acls: &mut Vec<AclEntry>, cn: &str)
    ensures
        final(acls)@ == without_subject(old(acls)@, cn@),
{
    let mut kept: Vec<AclEntry> = Vec::new();
    let n = acls.len();
    for i in 0..n
        invariant
            n == acls.len(),
            kept@ == without_subject(acls@.subrange(0, i as int), cn@),
    {
        let ghost p = acls@.subrange(0, i + 1);
        assert(p.drop_last() =~= acls@.subrange(0, i as int));
        let named = match &acls[i].qualifier_cn {
            Some(c) => same_text(c.as_str(), cn),
            None => false,
        };
        if !named {
            kept.push(acls[i].duplicate());
        }
    }
    assert(acls@.subrange(0, n as int) =~= acls@);
    *acls = kept;
}

/// Adds a user entry for `id` unless the list already has one; tells whether
/// it added it.
pub fn add_user_entry(acls: &mut Vec<AclEntry>, id: &String) -> (added: bool)
    requires
        users_named(old(acls)@),
    ensures
        added == !has_user_entry(old(acls)@, id@),
        added ==> final(acls)@ == old(acls)@.push(new_user_entry(*id)),
        !added ==> final(acls)@ == old(acls)@,
{
    let n = acls.len();
    let mut found = false;
    for i in 0..n
        invariant
            n == acls.len(),
            users_named(acls@),
            found == exists|j: int| 0 <= j < i && (#[trigger] acls@[j]).qualifier is User && names_subject(acls@[j], id@),
    {
        let hit = match acls[i].qualifier {
            Qualifier::User(_) => match &acls[i].qualifier_cn {
                Some(c) => same_text(c.as_str(), id.as_str()),
                None => false,
            },
            _ => false,
        };
        if hit {
            found = true;
        }
        assert(hit == (acls@[i as int].qualifier is User && names_subject(acls@[i as int], id@)));
    }
    if !found {
        acls.push(AclEntry {
            qualifier: Qualifier::User(0),
            qualifier_cn: Some(id.clone()),
            qualifier_display: Some(id.clone()),
            perm: 7,
        });
    }
    !found
}

/// Adds a group entry for `cn` unless the list already has one; tells whether
/// it added it.
pub fn add_group_entry(acls: &mut Vec<AclEntry>, cn: &String) -> (added: bool)
    requires
        groups_named(old(acls)@),
    ensures
        added == !has_group_entry(old(acls)@, cn@),
        added ==> final(acls)@ == old(acls)@.push(new_group_entry(*cn)),
        !added ==> final(acls)@ == old(acls)@,
{
    let n = acls.len();
    let mut found = false;
    for i in 0..n
        invariant
            n == acls.len(),
            groups_named(acls@),
            found == exists|j: int| 0 <= j < i && (#[trigger] acls@[j]).qualifier is Group && names_subject(acls@[j], cn@),
    {
        let hit = match acls[i].qualifier {
            Qualifier::Group(_) => match &acls[i].qualifier_cn {
                Some(c) => same_text(c.as_str(), cn.as_str()),
                None => false,
            },
            _ => false,
        };
        if hit {
            found = true;
        }
        assert(hit == (acls@[i as int].qualifier is Group && names_subject(acls@[i as int], cn@)));
    }
    if !found {
        acls.push(AclEntry {
            qualifier: Qualifier::Group(0),
            qualifier_cn: Some(cn.clone()),
            qualifier_display: Some(cn.clone()),
            perm: 7,
        });
    }
    !found
}


/// An entry with its texts seen as character sequences.
pub struct AclView {
    pub qualifier: Qualifier,
    pub cn: Option<Seq<char>>,
    pub display: Option<Seq<char>>,
    pub perm: u32,
}

impl View for AclEntry {
    type V = AclView;

    open spec fn view(&self) -> AclView {
        AclView {
            qualifier: self.qualifier,
            cn: opt_view(self.qualifier_cn),
            display: opt_view(self.qualifier_display),
            perm: self.perm,
        }
    }
}

impl SortKey for AclEntry {
    /// Entries go in the order of the names shown for their subjects, entries
    /// without a shown name first.
    open spec fn goes_before(a: AclView, b: AclView) -> bool {
        opt_text_order(a.display, b.display) == Order::Less
    }

    fn goes_before_exec(&self, other: &Self) -> (r: bool) {
        compare_opt_text(&self.qualifier_display, &other.qualifier_display) == Order::Less
    }
}

/// Orders entries by the name shown for their subject; ties keep their order.
pub fn sort_by_display(acls: Vec<AclEntry>) -> (r: Vec<AclEntry>)
    ensures
        views(r@) == stable_sorted::<AclEntry>(views(acls@)),
{
    stable_sort(acls)
}


/// Ordering entries by shown name is a strict weak order.
pub proof fn lemma_acl_display_strict_weak()
    ensures
        strict_weak::<AclEntry>(),
{
    assert forall|a: AclView, b: AclView, c: AclView| AclEntry::goes_before(a, b) implies
        !AclEntry::goes_before(b, a) && (AclEntry::goes_before(a, c) || AclEntry::goes_before(c, b)) by {
        lemma_opt_text_less_strict_weak(a.display, b.display, c.display);
    }
}

/// Entries sorted by shown name are in order: no entry comes before one whose
/// shown name precedes its own.
pub proof fn law_display_order_sorted(s: Seq<AclView>)
    ensures
        forall|i: int, j: int| 0 <= i < j < stable_sorted::<AclEntry>(s).len() ==>
            opt_text_order(#[trigger] stable_sorted::<AclEntry>(s)[j].display, #[trigger] stable_sorted::<AclEntry>(s)[i].display) != Order::Less,
{
    lemma_acl_display_strict_weak();
    law_stable_sort_sorted::<AclEntry>(s);
}

} // verus!
