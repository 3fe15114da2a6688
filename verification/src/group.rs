//! STORM groups: their data, how the interface classifies them, and the
//! membership changes that turn a group's saved members into its edited ones.

use vstd::prelude::*;

use crate::sort::{SortKey, law_stable_sort_permutes, law_stable_sort_sorted, stable_sort, stable_sorted, strict_weak, views};
use crate::text::{
    Order, compare_opt_text, compare_text, compare_texts, flipped, joined,
    lemma_opt_text_order_flip, lemma_opt_text_order_trans, lemma_opt_texts_order_flip,
    lemma_opt_texts_order_trans, lemma_text_order_flip, lemma_text_order_trans, opt_text_order,
    opt_texts_order, opt_view, same_text, text_order, texts_view,
};

verus! {

/// A group as the API describes it.
#[derive(Clone, Debug, PartialEq, Eq)]
pub struct Group {
    pub cn: String,
    pub description: String,
    /// Member user names.
    pub member: Option<Vec<String>>,
    pub owner: Option<String>,
}

/// A request to create a group.
#[derive(Clone, Debug, PartialEq, Eq)]
pub struct CreateGroup {
    pub cn: String,
    pub description: String,
    pub owner: String,
}

/// A user and a group, for adding the user to the group or removing it.
#[derive(Clone, Debug, PartialEq, Eq)]
pub struct AddDelUserToGroup {
    pub group_cn: String,
    pub user_cn: String,
}

/// One change of a group's membership.
#[derive(Clone, Debug, PartialEq, Eq)]
pub enum MemberChange {
    Remove(AddDelUserToGroup),
    Add(AddDelUserToGroup),
}

/// A change seen as (adds, group name, user name).
pub open spec fn change_view(c: MemberChange) -> (bool, Seq<char>, Seq<char>) {
    match c {
        MemberChange::Remove(r) => (false, r.group_cn@, r.user_cn@),
        MemberChange::Add(r) => (true, r.group_cn@, r.user_cn@),
    }
}

/// The member names of a group; a group without a member list has none.
pub open spec fn member_names(m: Option<Vec<String>>) -> Seq<Seq<char>> {
    match m {
        Some(v) => texts_view(v@),
        None => Seq::empty(),
    }
}

/// The elements of `a` that `b` does not contain, in their order in `a`.
pub open spec fn names_missing_from(a: Seq<Seq<char>>, b: Seq<Seq<char>>) -> Seq<Seq<char>>
    decreases a.len(),
{
    if a.len() == 0 {
        a
    } else if b.contains(a.last()) {
        names_missing_from(a.drop_last(), b)
    } else {
        names_missing_from(a.drop_last(), b).push(a.last())
    }
}

/// The changes that save an edited group: first the removal of every saved
/// member the edited group lacks, in saved order, then the addition of every
/// edited member the saved group lacks, in edited order.
pub open spec fn planned_changes(saved: Group, edited: Group) -> Seq<(bool, Seq<char>, Seq<char>)> {
    let old = member_names(saved.member);
    let new = member_names(edited.member);
    names_missing_from(old, new).map_values(|u: Seq<char>| (false, edited.cn@, u))
        + names_missing_from(new, old).map_values(|u: Seq<char>| (true, edited.cn@, u))
}

/// Whether the text list `v` holds `x`.
pub fn holds_text(v: &Vec<String>, x: &str) -> (r: bool)
    ensures
        r == texts_view(v@).contains(x@),
{
    for i in 0..v.len()
        invariant
            forall|j: int| 0 <= j < i ==> v@[j]@ != x@,
    {
        if same_text(v[i].as_str(), x) {
            assert(texts_view(v@)[i as int] == x@);
            return true;
        }
    }
    assert forall|j: int| 0 <= j < texts_view(v@).len() implies texts_view(v@)[j] != x@ by {
        assert(texts_view(v@)[j] == v@[j]@);
    }
    false
}

fn holds_member(m: &Option<Vec<String>>, x: &str) -> (r: bool)
    ensures
        r == member_names(*m).contains(x@),
{
    match m {
        Some(v) => holds_text(v, x),
        None => false,
    }
}

fn push_missing(
    out: &mut Vec<MemberChange>,
    from: &Option<Vec<String>>,
    other: &Option<Vec<String>>,
    group_cn: &String,
    adds: bool,
)
    ensures
        final(out)@.map_values(|c: MemberChange| change_view(c)) == old(out)@.map_values(
            |c: MemberChange| change_view(c),
        ) + names_missing_from(member_names(*from), member_names(*other)).map_values(
            |u: Seq<char>| (adds, group_cn@, u),
        ),
{
    let ghost start = old(out)@.map_values(|c: MemberChange| change_view(c));
    match from {
        None => {
            assert(names_missing_from(member_names(*from), member_names(*other)) =~= Seq::empty());
            assert(out@.map_values(|c: MemberChange| change_view(c)) =~= start + Seq::<(bool, Seq<char>, Seq<char>)>::empty());
        },
        Some(v) => {
            let ghost names = texts_view(v@);
            let ghost otherv = member_names(*other);
            assert(names_missing_from(names.subrange(0, 0), otherv) =~= Seq::empty());
            assert(out@.map_values(|c: MemberChange| change_view(c)) =~= start + Seq::<(bool, Seq<char>, Seq<char>)>::empty());
            for i in 0..v.len()
                invariant
                    names == texts_view(v@),
                    otherv == member_names(*other),
                    out@.map_values(|c: MemberChange| change_view(c)) == start + names_missing_from(
                        names.subrange(0, i as int),
                        otherv,
                    ).map_values(|u: Seq<char>| (adds, group_cn@, u)),
            {
                let ghost p = names.subrange(0, i + 1);
                assert(p.drop_last() =~= names.subrange(0, i as int));
                assert(p.last() == v@[i as int]@);
                let ghost before = out@;
                if !holds_member(other, v[i].as_str()) {
                    let c = AddDelUserToGroup { group_cn: group_cn.clone(), user_cn: v[i].clone() };
                    if adds {
                        out.push(MemberChange::Add(c));
                    } else {
                        out.push(MemberChange::Remove(c));
                    }
                    assert(out@.map_values(|c: MemberChange| change_view(c)) =~= before.map_values(
                        |c: MemberChange| change_view(c),
                    ).push((adds, group_cn@, v@[i as int]@)));
                    assert(names_missing_from(p, otherv).map_values(|u: Seq<char>| (adds, group_cn@, u))
                        =~= names_missing_from(names.subrange(0, i as int), otherv).map_values(
                        |u: Seq<char>| (adds, group_cn@, u),
                    ).push((adds, group_cn@, v@[i as int]@)));
                }
            }
            assert(names.subrange(0, v.len() as int) =~= names);
        },
    }
}

/// The membership changes that save `edited` over `saved`: removals of the
/// saved members that are no longer there, then additions of the new members.
/// Each change names the edited group.
pub fn plan_member_changes(saved: &Group, edited: &Group) -> (r: Vec<MemberChange>)
    ensures
        r@.map_values(|c: MemberChange| change_view(c)) == planned_changes(*saved, *edited),
{
    let mut r: Vec<MemberChange> = Vec::new();
    assert(r@.map_values(|c: MemberChange| change_view(c)) =~= Seq::empty());
    push_missing(&mut r, &saved.member, &edited.member, &edited.cn, false);
    push_missing(&mut r, &edited.member, &saved.member, &edited.cn, true);
    assert(r@.map_values(|c: MemberChange| change_view(c)) =~= planned_changes(*saved, *edited));
    r
}

proof fn lemma_missing_contains(a: Seq<Seq<char>>, b: Seq<Seq<char>>, x: Seq<char>)
    ensures
        names_missing_from(a, b).contains(x) <==> (a.contains(x) && !b.contains(x)),
    decreases a.len(),
{
    if a.len() > 0 {
        let p = a.drop_last();
        lemma_missing_contains(p, b, x);
        assert(a =~= p.push(a.last()));
        if a.contains(x) && !b.contains(x) {
            if x != a.last() {
                let k = choose|k: int| 0 <= k < a.len() && a[k] == x;
                assert(p[k] == x);
            }
        }
        if p.contains(x) {
            let k = choose|k: int| 0 <= k < p.len() && p[k] == x;
            assert(a[k] == x);
        }
        let m = names_missing_from(p, b);
        if !b.contains(a.last()) {
            assert(names_missing_from(a, b) == m.push(a.last()));
            if m.push(a.last()).contains(x) && x != a.last() {
                let k = choose|k: int| 0 <= k < m.len() + 1 && m.push(a.last())[k] == x;
                assert(m[k] == x);
            }
            if m.contains(x) {
                let k = choose|k: int| 0 <= k < m.len() && m[k] == x;
                assert(m.push(a.last())[k] == x);
            }
            assert(m.push(a.last())[m.len() as int] == a.last());
        }
    }
}

/// Saving a group turns its saved membership into its edited one: a user is
/// a member after the planned removals and additions exactly when the edited
/// group lists it, and no user is both removed and added.
pub proof fn law_member_changes_reach_edited_membership(saved: Group, edited: Group, user: Seq<char>)
    ensures
        ({
            let plan = planned_changes(saved, edited);
            let removed = plan.contains((false, edited.cn@, user));
            let added = plan.contains((true, edited.cn@, user));
            &&& ((member_names(saved.member).contains(user) && !removed) || added)
                <==> member_names(edited.member).contains(user)
            &&& !(removed && added)
        }),
{
    let old = member_names(saved.member);
    let new = member_names(edited.member);
    let rm = names_missing_from(old, new);
    let ad = names_missing_from(new, old);
    let f = |u: Seq<char>| (false, edited.cn@, u);
    let g = |u: Seq<char>| (true, edited.cn@, u);
    let plan = planned_changes(saved, edited);
    assert(plan == rm.map_values(f) + ad.map_values(g));
    lemma_missing_contains(old, new, user);
    lemma_missing_contains(new, old, user);
    let rmv = rm.map_values(f);
    let adv = ad.map_values(g);
    if plan.contains((false, edited.cn@, user)) {
        let k = choose|k: int| 0 <= k < plan.len() && plan[k] == (false, edited.cn@, user);
        if k < rmv.len() {
            assert(rm[k] == user);
        } else {
            assert(adv[k - rmv.len()] == plan[k]);
        }
    }
    if rm.contains(user) {
        let k = choose|k: int| 0 <= k < rm.len() && rm[k] == user;
        assert(plan[k] == (false, edited.cn@, user));
    }
    if plan.contains((true, edited.cn@, user)) {
        let k = choose|k: int| 0 <= k < plan.len() && plan[k] == (true, edited.cn@, user);
        if k >= rmv.len() {
            assert(ad[k - rmv.len()] == user);
        } else {
            assert(rmv[k] == plan[k]);
        }
    }
    if ad.contains(user) {
        let k = choose|k: int| 0 <= k < ad.len() && ad[k] == user;
        assert(plan[rmv.len() + k] == (true, edited.cn@, user));
    }
}


/// How the interface treats a group: the group every user of the space is in
/// (managed automatically), the group of invited users, or an ordinary group.
#[derive(Clone, Copy, Debug, PartialEq, Eq, Structural)]
pub enum GroupKind {
    Auto,
    Invite,
    Plain,
}

/// The kind of the group `cn` against the root groups `roots`, the first root
/// group whose automatic (`prefix-root`) or invitation (`prefix-root-invite`)
/// name is `cn` deciding.
pub open spec fn root_group_kind(cn: Seq<char>, prefix: Seq<char>, roots: Seq<Seq<char>>) -> GroupKind
    decreases roots.len(),
{
    if roots.len() == 0 {
        GroupKind::Plain
    } else if cn == prefix + "-"@ + roots[0] {
        GroupKind::Auto
    } else if cn == prefix + "-"@ + roots[0] + "-invite"@ {
        GroupKind::Invite
    } else {
        root_group_kind(cn, prefix, roots.drop_first())
    }
}

/// The kind of the group `cn`: with root groups, as `root_group_kind`
/// decides; without, the group named `prefix` is automatic and the group
/// named `prefix-invite` is the invitation group.
pub open spec fn group_kind(cn: Seq<char>, prefix: Seq<char>, roots: Option<Vec<String>>) -> GroupKind {
    match roots {
        Some(r) => root_group_kind(cn, prefix, texts_view(r@)),
        None => if cn == prefix {
            GroupKind::Auto
        } else if cn == prefix + "-invite"@ {
            GroupKind::Invite
        } else {
            GroupKind::Plain
        },
    }
}

/// Classifies the group `cn` for the group prefix `prefix` and the optional
/// list of root groups.
pub fn classify_group(cn: &str, prefix: &str, roots: &Option<Vec<String>>) -> (r: GroupKind)
    ensures
        r == group_kind(cn@, prefix@, *roots),
{
    proof { reveal_strlit("-"); reveal_strlit("-invite"); }
    match roots {
        None => {
            if same_text(cn, prefix) {
                GroupKind::Auto
            } else {
                let invite = joined(prefix, "-invite");
                if same_text(cn, invite.as_str()) {
                    GroupKind::Invite
                } else {
                    GroupKind::Plain
                }
            }
        },
        Some(r) => {
            let ghost all = texts_view(r@);
            assert(all.skip(0) =~= all);
            assert(group_kind(cn@, prefix@, *roots) == root_group_kind(cn@, prefix@, all));
            let mut i: usize = 0;
            while i < r.len()
                invariant
                    all == texts_view(r@),
                    i <= r.len(),
                    root_group_kind(cn@, prefix@, all) == root_group_kind(cn@, prefix@, all.skip(i as int)),
                    group_kind(cn@, prefix@, *roots) == root_group_kind(cn@, prefix@, all),
                decreases r.len() - i,
            {
                let ghost rest = all.skip(i as int);
                assert(rest[0] == r@[i as int]@);
                assert(rest.drop_first() =~= all.skip(i + 1));
                let dash = joined(prefix, "-");
                let auto = joined(dash.as_str(), r[i].as_str());
                assert(rest.len() > 0);
                assert(auto@ == prefix@ + "-"@ + rest[0]);
                if same_text(cn, auto.as_str()) {
                    assert(root_group_kind(cn@, prefix@, rest) == GroupKind::Auto);
                    return GroupKind::Auto;
                }
                let invite = joined(auto.as_str(), "-invite");
                assert(invite@ == prefix@ + "-"@ + rest[0] + "-invite"@);
                if same_text(cn, invite.as_str()) {
                    assert(root_group_kind(cn@, prefix@, rest) == GroupKind::Invite);
                    return GroupKind::Invite;
                }
                i = i + 1;
            }
            assert(all.skip(i as int).len() == 0);
            GroupKind::Plain
        },
    }
}

impl GroupKind {
    /// Whether the interface lets the user edit the members of such a group:
    /// all but the automatic group.
    pub fn members_editable(&self) -> (r: bool)
        ensures
            r == (*self != GroupKind::Auto),
    {
        !matches!(self, GroupKind::Auto)
    }

    /// Whether the interface lets the user delete such a group: only ordinary
    /// groups.
    pub fn deletable(&self) -> (r: bool)
        ensures
            r == (*self == GroupKind::Plain),
    {
        matches!(self, GroupKind::Plain)
    }
}

/// The place of a group in the group list: the group named `prefix` first,
/// then the group named `prefix-invite`, then the others.
pub open spec fn list_rank(cn: Seq<char>, prefix: Seq<char>) -> u8 {
    if cn == prefix {
        0
    } else if cn == prefix + "-invite"@ {
        1
    } else {
        2
    }
}

/// The place of the group `cn` in the group list for the prefix `prefix`.
pub fn group_list_rank(cn: &str, prefix: &str) -> (r: u8)
    ensures
        r == list_rank(cn@, prefix@),
{
    proof { reveal_strlit("-invite"); }
    if same_text(cn, prefix) {
        0
    } else {
        let invite = joined(prefix, "-invite");
        if same_text(cn, invite.as_str()) {
            1
        } else {
            2
        }
    }
}


/// The member names of a group, as an optional list.
pub open spec fn opt_texts_view(m: Option<Vec<String>>) -> Option<Seq<Seq<char>>> {
    match m {
        Some(v) => Some(texts_view(v@)),
        None => None,
    }
}

/// Whether two groups hold the same texts.
pub open spec fn same_group(a: Group, b: Group) -> bool {
    a.cn@ == b.cn@ && a.description@ == b.description@ && opt_view(a.owner) == opt_view(b.owner)
        && opt_texts_view(a.member) == opt_texts_view(b.member)
}

/// Groups in order: by name, then description, then member list (no list
/// first), then owner (no owner first).
pub open spec fn group_order(a: Group, b: Group) -> Order {
    let c = text_order(a.cn@, b.cn@);
    let d = text_order(a.description@, b.description@);
    let m = opt_texts_order(opt_texts_view(a.member), opt_texts_view(b.member));
    let o = opt_text_order(opt_view(a.owner), opt_view(b.owner));
    if c != Order::Equal {
        c
    } else if d != Order::Equal {
        d
    } else if m != Order::Equal {
        m
    } else {
        o
    }
}

/// Group order is antisymmetric, and groups compare equal exactly when they
/// hold the same values.
pub proof fn lemma_group_order_flip(a: Group, b: Group)
    ensures
        group_order(b, a) == flipped(group_order(a, b)),
        group_order(a, b) == Order::Equal <==> same_group(a, b),
{
    lemma_text_order_flip(a.cn@, b.cn@);
    lemma_text_order_flip(a.description@, b.description@);
    lemma_opt_texts_order_flip(opt_texts_view(a.member), opt_texts_view(b.member));
    lemma_opt_text_order_flip(opt_view(a.owner), opt_view(b.owner));
    if group_order(a, b) == Order::Equal {
        assert(a.cn@ == b.cn@);
        assert(opt_view(a.owner) == opt_view(b.owner));
    }
}

/// Groups that compare equal compare the same way with any group.
pub proof fn lemma_group_order_congruent(a: Group, b: Group, c: Group)
    requires
        group_order(a, b) == Order::Equal,
    ensures
        group_order(a, c) == group_order(b, c),
{
    lemma_text_order_flip(a.cn@, b.cn@);
    lemma_text_order_flip(a.description@, b.description@);
    lemma_opt_texts_order_flip(opt_texts_view(a.member), opt_texts_view(b.member));
    lemma_opt_text_order_flip(opt_view(a.owner), opt_view(b.owner));
}

/// Group order is transitive.
pub proof fn lemma_group_order_trans(a: Group, b: Group, c: Group)
    requires
        group_order(a, b) == Order::Less,
        group_order(b, c) == Order::Less,
    ensures
        group_order(a, c) == Order::Less,
{
    lemma_text_order_flip(a.cn@, b.cn@);
    lemma_text_order_flip(b.cn@, c.cn@);
    lemma_text_order_flip(a.description@, b.description@);
    lemma_text_order_flip(b.description@, c.description@);
    lemma_opt_texts_order_flip(opt_texts_view(a.member), opt_texts_view(b.member));
    lemma_opt_texts_order_flip(opt_texts_view(b.member), opt_texts_view(c.member));
    lemma_opt_text_order_flip(opt_view(a.owner), opt_view(b.owner));
    lemma_opt_text_order_flip(opt_view(b.owner), opt_view(c.owner));
    if text_order(a.cn@, b.cn@) == Order::Less && text_order(b.cn@, c.cn@) == Order::Less {
        lemma_text_order_trans(a.cn@, b.cn@, c.cn@);
    }
    if text_order(a.description@, b.description@) == Order::Less
        && text_order(b.description@, c.description@) == Order::Less {
        lemma_text_order_trans(a.description@, b.description@, c.description@);
    }
    if opt_texts_order(opt_texts_view(a.member), opt_texts_view(b.member)) == Order::Less
        && opt_texts_order(opt_texts_view(b.member), opt_texts_view(c.member)) == Order::Less {
        lemma_opt_texts_order_trans(opt_texts_view(a.member), opt_texts_view(b.member), opt_texts_view(c.member));
    }
    if opt_text_order(opt_view(a.owner), opt_view(b.owner)) == Order::Less
        && opt_text_order(opt_view(b.owner), opt_view(c.owner)) == Order::Less {
        lemma_opt_text_order_trans(opt_view(a.owner), opt_view(b.owner), opt_view(c.owner));
    }
}

/// Compares two groups field by field.
pub fn compare_groups(a: &Group, b: &Group) -> (r: Order)
    ensures
        r == group_order(*a, *b),
{
    let c = compare_text(a.cn.as_str(), b.cn.as_str());
    if c != Order::Equal {
        return c;
    }
    let d = compare_text(a.description.as_str(), b.description.as_str());
    if d != Order::Equal {
        return d;
    }
    let m = match (&a.member, &b.member) {
        (None, None) => Order::Equal,
        (None, Some(_)) => Order::Less,
        (Some(_), None) => Order::Greater,
        (Some(x), Some(y)) => compare_texts(x, y),
    };
    if m != Order::Equal {
        return m;
    }
    compare_opt_text(&a.owner, &b.owner)
}

/// A group with its place in the group list.
pub struct RankedGroup {
    pub rank: u8,
    pub group: Group,
}

impl View for RankedGroup {
    type V = RankedGroup;

    open spec fn view(&self) -> RankedGroup {
        *self
    }
}

impl SortKey for RankedGroup {
    open spec fn goes_before(a: RankedGroup, b: RankedGroup) -> bool {
        a.rank < b.rank || (a.rank == b.rank && group_order(a.group, b.group) == Order::Less)
    }

    fn goes_before_exec(&self, other: &Self) -> (r: bool) {
        self.rank < other.rank || (self.rank == other.rank && compare_groups(&self.group, &other.group)
            == Order::Less)
    }
}

/// The order of the group list is a strict weak order.
pub proof fn lemma_ranked_group_strict_weak()
    ensures
        strict_weak::<RankedGroup>(),
{
    assert forall|a: RankedGroup, b: RankedGroup| #[trigger] RankedGroup::goes_before(a, b) implies !RankedGroup::goes_before(b, a) by {
        lemma_group_order_flip(a.group, b.group);
    }
    assert forall|a: RankedGroup, b: RankedGroup, c: RankedGroup| RankedGroup::goes_before(a, b) implies
        RankedGroup::goes_before(a, c) || RankedGroup::goes_before(c, b) by {
        if a.rank == b.rank && c.rank == a.rank {
            lemma_group_order_flip(a.group, c.group);
            let ac = group_order(a.group, c.group);
            if ac == Order::Equal {
                lemma_group_order_flip(c.group, a.group);
                lemma_group_order_congruent(c.group, a.group, b.group);
            }
            if ac == Order::Greater {
                lemma_group_order_trans(c.group, a.group, b.group);
            }
        }
    }
}

/// The group list in the order the interface shows it for the prefix
/// `prefix`: the automatic group, then the invitation group, then the other
/// groups in group order; groups that tie keep their order.
pub open spec fn group_list_order(groups: Seq<Group>, prefix: Seq<char>) -> Seq<Group> {
    stable_sorted::<RankedGroup>(groups.map_values(|g: Group| RankedGroup { rank: list_rank(g.cn@, prefix), group: g }))
        .map_values(|r: RankedGroup| r.group)
}

/// Orders the group list as the interface shows it.
pub fn sort_groups(groups: Vec<Group>, prefix: &str) -> (r: Vec<Group>)
    ensures
        r@ == group_list_order(groups@, prefix@),
{
    let ghost input = groups@;
    let ghost ranked_view = input.map_values(|g: Group| RankedGroup { rank: list_rank(g.cn@, prefix@), group: g });
    let mut rest = groups;
    let mut ranked: Vec<RankedGroup> = Vec::new();
    let n = rest.len();
    assert(rest@ =~= input.skip(0));
    for i in 0..n
        invariant
            n == input.len(),
            rest@ == input.skip(i as int),
            ranked_view == input.map_values(|g: Group| RankedGroup { rank: list_rank(g.cn@, prefix@), group: g }),
            ranked@ == ranked_view.take(i as int),
    {
        let g = rest.remove(0);
        assert(g == input[i as int]);
        assert(rest@ =~= input.skip(i + 1));
        let rank = group_list_rank(g.cn.as_str(), prefix);
        ranked.push(RankedGroup { rank, group: g });
        assert(ranked@ =~= ranked_view.take(i + 1));
    }
    assert(ranked_view.take(n as int) =~= ranked_view);
    let mut sorted = stable_sort(ranked);
    assert(views(sorted@) =~= sorted@);
    assert(views(ranked@) =~= ranked@);
    let ghost sv = sorted@;
    let mut out: Vec<Group> = Vec::new();
    let m = sorted.len();
    assert(sorted@ =~= sv.skip(0));
    for j in 0..m
        invariant
            m == sv.len(),
            sorted@ == sv.skip(j as int),
            out@ == sv.take(j as int).map_values(|r: RankedGroup| r.group),
    {
        let rg = sorted.remove(0);
        assert(rg == sv[j as int]);
        assert(sorted@ =~= sv.skip(j + 1));
        out.push(rg.group);
        assert(out@ =~= sv.take(j + 1).map_values(|r: RankedGroup| r.group));
    }
    assert(sv.take(m as int) =~= sv);
    out
}


/// The group list is shown in order: the automatic group before the
/// invitation group before the others, and among groups of the same place,
/// no group before one that precedes it in group order.
pub proof fn law_group_list_sorted(groups: Seq<Group>, prefix: Seq<char>)
    ensures
        ({
            let r = group_list_order(groups, prefix);
            forall|i: int, j: int| 0 <= i < j < r.len() ==> {
                let (x, y) = (#[trigger] r[i], #[trigger] r[j]);
                &&& list_rank(x.cn@, prefix) <= list_rank(y.cn@, prefix)
                &&& list_rank(x.cn@, prefix) == list_rank(y.cn@, prefix) ==> group_order(y, x) != Order::Less
            }
        }),
{
    broadcast use vstd::seq_lib::to_multiset_contains;
    let ranked = groups.map_values(|g: Group| RankedGroup { rank: list_rank(g.cn@, prefix), group: g });
    let sorted = stable_sorted::<RankedGroup>(ranked);
    lemma_ranked_group_strict_weak();
    law_stable_sort_sorted::<RankedGroup>(ranked);
    law_stable_sort_permutes::<RankedGroup>(ranked);
    let r = group_list_order(groups, prefix);
    assert(r == sorted.map_values(|x: RankedGroup| x.group));
    assert forall|k: int| 0 <= k < sorted.len() implies (#[trigger] sorted[k]).rank == list_rank(sorted[k].group.cn@, prefix) by {
        assert(sorted.contains(sorted[k]));
        assert(sorted.to_multiset().count(sorted[k]) > 0);
        assert(ranked.contains(sorted[k]));
        let m = choose|m: int| 0 <= m < ranked.len() && ranked[m] == sorted[k];
        assert(ranked[m] == RankedGroup { rank: list_rank(groups[m].cn@, prefix), group: groups[m] });
    }
    assert forall|i: int, j: int| 0 <= i < j < r.len() implies {
        let (x, y) = (#[trigger] r[i], #[trigger] r[j]);
        &&& list_rank(x.cn@, prefix) <= list_rank(y.cn@, prefix)
        &&& list_rank(x.cn@, prefix) == list_rank(y.cn@, prefix) ==> group_order(y, x) != Order::Less
    } by {
        assert(r[i] == sorted[i].group);
        assert(r[j] == sorted[j].group);
        assert(!RankedGroup::goes_before(sorted[j], sorted[i]));
        assert(sorted[i].rank == list_rank(sorted[i].group.cn@, prefix));
        assert(sorted[j].rank == list_rank(sorted[j].group.cn@, prefix));
    }
}

/// The group list shows the automatic group (named `prefix`) first, then the
/// invitation group (named `prefix-invite`), then the other groups ordered by
/// name: no group comes after one whose name it precedes.
pub proof fn law_group_list_by_name(groups: Seq<Group>, prefix: Seq<char>)
    ensures
        ({
            let r = group_list_order(groups, prefix);
            let invite = prefix + "-invite"@;
            forall|i: int, j: int| 0 <= i < j < r.len() ==> {
                let (x, y) = (#[trigger] r[i], #[trigger] r[j]);
                &&& y.cn@ == prefix ==> x.cn@ == prefix
                &&& y.cn@ == invite ==> (x.cn@ == prefix || x.cn@ == invite)
                &&& (x.cn@ != prefix && x.cn@ != invite && y.cn@ != prefix && y.cn@ != invite)
                    ==> text_order(y.cn@, x.cn@) != Order::Less
            }
        }),
{
    law_group_list_sorted(groups, prefix);
    let r = group_list_order(groups, prefix);
    let invite = prefix + "-invite"@;
    assert forall|i: int, j: int| 0 <= i < j < r.len() implies {
        let (x, y) = (#[trigger] r[i], #[trigger] r[j]);
        &&& y.cn@ == prefix ==> x.cn@ == prefix
        &&& y.cn@ == invite ==> (x.cn@ == prefix || x.cn@ == invite)
        &&& (x.cn@ != prefix && x.cn@ != invite && y.cn@ != prefix && y.cn@ != invite)
            ==> text_order(y.cn@, x.cn@) != Order::Less
    } by {
        let (x, y) = (r[i], r[j]);
        assert(list_rank(x.cn@, prefix) <= list_rank(y.cn@, prefix));
        if x.cn@ != prefix && x.cn@ != invite && y.cn@ != prefix && y.cn@ != invite {
            assert(group_order(y, x) != Order::Less);
        }
    }
}

/// Without a list of root groups, the group named `prefix` is the automatic
/// group, the one named `prefix-invite` the invitation group, and every other
/// group an ordinary one.
pub proof fn law_group_kind_without_roots(cn: Seq<char>, prefix: Seq<char>)
    ensures
        cn == prefix ==> group_kind(cn, prefix, None) == GroupKind::Auto,
        cn == prefix + "-invite"@ ==> group_kind(cn, prefix, None) == GroupKind::Invite,
        cn != prefix && cn != prefix + "-invite"@ ==> group_kind(cn, prefix, None) == GroupKind::Plain,
{
    reveal_strlit("-invite");
    assert((prefix + "-invite"@).len() == prefix.len() + 7);
}

proof fn lemma_root_group_kind_at(cn: Seq<char>, prefix: Seq<char>, roots: Seq<Seq<char>>, k: int)
    requires
        0 <= k < roots.len(),
        forall|m: int| 0 <= m < k ==> cn != prefix + "-"@ + #[trigger] roots[m]
            && cn != prefix + "-"@ + roots[m] + "-invite"@,
    ensures
        cn == prefix + "-"@ + roots[k] ==> root_group_kind(cn, prefix, roots) == GroupKind::Auto,
        cn != prefix + "-"@ + roots[k] && cn == prefix + "-"@ + roots[k] + "-invite"@
            ==> root_group_kind(cn, prefix, roots) == GroupKind::Invite,
    decreases k,
{
    if k > 0 {
        let rest = roots.drop_first();
        assert(roots[0] == roots[0]);
        assert forall|m: int| 0 <= m < k - 1 implies cn != prefix + "-"@ + #[trigger] rest[m]
            && cn != prefix + "-"@ + rest[m] + "-invite"@ by {
            assert(rest[m] == roots[m + 1]);
        }
        assert(rest[k - 1] == roots[k]);
        lemma_root_group_kind_at(cn, prefix, rest, k - 1);
    }
}

proof fn lemma_root_group_kind_none(cn: Seq<char>, prefix: Seq<char>, roots: Seq<Seq<char>>)
    requires
        forall|m: int| 0 <= m < roots.len() ==> cn != prefix + "-"@ + #[trigger] roots[m]
            && cn != prefix + "-"@ + roots[m] + "-invite"@,
    ensures
        root_group_kind(cn, prefix, roots) == GroupKind::Plain,
    decreases roots.len(),
{
    if roots.len() > 0 {
        let rest = roots.drop_first();
        assert(roots[0] == roots[0]);
        assert forall|m: int| 0 <= m < rest.len() implies cn != prefix + "-"@ + #[trigger] rest[m]
            && cn != prefix + "-"@ + rest[m] + "-invite"@ by {
            assert(rest[m] == roots[m + 1]);
        }
        lemma_root_group_kind_none(cn, prefix, rest);
    }
}

/// With a list of root groups, the first root group `r` whose automatic name
/// `prefix-r` or invitation name `prefix-r-invite` the group has decides: the
/// group is then the automatic, or the invitation, group.
pub proof fn law_group_kind_first_root(cn: Seq<char>, prefix: Seq<char>, roots: Vec<String>, k: int)
    requires
        0 <= k < roots@.len(),
        forall|m: int| 0 <= m < k ==> cn != prefix + "-"@ + (#[trigger] roots@[m])@
            && cn != prefix + "-"@ + roots@[m]@ + "-invite"@,
    ensures
        cn == prefix + "-"@ + roots@[k]@ ==> group_kind(cn, prefix, Some(roots)) == GroupKind::Auto,
        cn != prefix + "-"@ + roots@[k]@ && cn == prefix + "-"@ + roots@[k]@ + "-invite"@
            ==> group_kind(cn, prefix, Some(roots)) == GroupKind::Invite,
{
    let rs = texts_view(roots@);
    assert forall|m: int| 0 <= m < k implies cn != prefix + "-"@ + #[trigger] rs[m]
        && cn != prefix + "-"@ + rs[m] + "-invite"@ by {
        assert(rs[m] == roots@[m]@);
    }
    assert(rs[k] == roots@[k]@);
    lemma_root_group_kind_at(cn, prefix, rs, k);
}

/// With a list of root groups, a group that is neither the automatic nor the
/// invitation group of any root group is an ordinary group.
pub proof fn law_group_kind_no_root(cn: Seq<char>, prefix: Seq<char>, roots: Vec<String>)
    requires
        forall|m: int| 0 <= m < roots@.len() ==> cn != prefix + "-"@ + (#[trigger] roots@[m])@
            && cn != prefix + "-"@ + roots@[m]@ + "-invite"@,
    ensures
        group_kind(cn, prefix, Some(roots)) == GroupKind::Plain,
{
    let rs = texts_view(roots@);
    assert forall|m: int| 0 <= m < rs.len() implies cn != prefix + "-"@ + #[trigger] rs[m]
        && cn != prefix + "-"@ + rs[m] + "-invite"@ by {
        assert(rs[m] == roots@[m]@);
    }
    lemma_root_group_kind_none(cn, prefix, rs);
}

} // verus!
