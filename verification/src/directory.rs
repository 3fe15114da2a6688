//! Root directories of the STORM space and their quotas.

use vstd::prelude::*;

use crate::acl::{AclEntry, AclView};
use crate::error::AppError;
use crate::sort::{SortKey, law_stable_sort_keeps_ties, stable_sort, stable_sorted, strict_weak, ties_of, views};
use crate::text::{
    Order, compare_text, decimal, decimal_string, has_prefix, int_parse_error_text,
    law_decimal_parses_back, lemma_text_less_strict_weak, lemma_text_order_flip, parse_u64, parsed_u64, starts_with,
    text_order,
};

verus! {

/// A root directory as the API describes it.
#[derive(Clone, Debug, PartialEq, Eq)]
pub struct Directory {
    pub name: String,
    pub acls: Vec<AclEntry>,
    /// The quota of the directory in bytes, if it has one.
    pub quota: Option<u64>,
    /// Whether the directory's name follows the naming rule; the interface
    /// does not let the user manage the others.
    pub valid: bool,
}

/// A request to create a directory, or to delete one.
#[derive(Clone, Debug, PartialEq, Eq)]
pub struct CreateDirectory {
    pub name: String,
}

/// A request to rename a directory.
#[derive(Clone, Debug, PartialEq, Eq)]
pub struct RenameDirectory {
    pub name: String,
    pub new_name: String,
}

/// The quota of the whole space.
#[derive(Clone, Copy, Debug, PartialEq, Eq, Structural)]
pub struct Quota {
    pub total_space: u64,
    pub available_space: u64,
}

/// The unit the user types a directory quota in.
#[derive(Clone, Copy, Debug, PartialEq, Eq, Structural)]
pub enum QuotaUnit {
    Megabyte,
    Gigabyte,
    Terabyte,
}

/// A request to set the quota of a directory, in bytes (0 removes it).
#[derive(Clone, Debug, PartialEq, Eq)]
pub struct SetQuota {
    pub name: String,
    pub quota: u64,
}

/// A directory with its texts seen as character sequences.
pub struct DirectoryView {
    pub name: Seq<char>,
    pub acls: Seq<AclView>,
    pub quota: Option<u64>,
    pub valid: bool,
}

impl View for Directory {
    type V = DirectoryView;

    open spec fn view(&self) -> DirectoryView {
        DirectoryView { name: self.name@, acls: views(self.acls@), quota: self.quota, valid: self.valid }
    }
}

impl SortKey for Directory {
    /// Directories go in the order of their names.
    open spec fn goes_before(a: DirectoryView, b: DirectoryView) -> bool {
        text_order(a.name, b.name) == Order::Less
    }

    fn goes_before_exec(&self, other: &Self) -> (r: bool) {
        compare_text(self.name.as_str(), other.name.as_str()) == Order::Less
    }
}

/// Ordering directories by name is a strict weak order.
pub proof fn lemma_directory_strict_weak()
    ensures
        strict_weak::<Directory>(),
{
    assert forall|a: DirectoryView, b: DirectoryView, c: DirectoryView| Directory::goes_before(a, b) implies
        !Directory::goes_before(b, a) && (Directory::goes_before(a, c) || Directory::goes_before(c, b)) by {
        lemma_text_less_strict_weak(a.name, b.name, c.name);
    }
}

/// The directories of `s` named `name`, in their order.
pub open spec fn named_in_order(s: Seq<DirectoryView>, name: Seq<char>) -> Seq<DirectoryView>
    decreases s.len(),
{
    if s.len() == 0 {
        s
    } else if s.last().name == name {
        named_in_order(s.drop_last(), name).push(s.last())
    } else {
        named_in_order(s.drop_last(), name)
    }
}

/// The directories tied with `y` in name order are those with its name.
proof fn lemma_ties_are_same_name(s: Seq<DirectoryView>, y: DirectoryView)
    ensures
        ties_of::<Directory>(s, y) == named_in_order(s, y.name),
    decreases s.len(),
{
    if s.len() > 0 {
        lemma_ties_are_same_name(s.drop_last(), y);
        lemma_text_order_flip(s.last().name, y.name);
    }
}

/// Sorting by name keeps the directories of each name in their order.
pub proof fn law_same_names_keep_order(s: Seq<DirectoryView>, name: Seq<char>)
    ensures
        named_in_order(stable_sorted::<Directory>(s), name) == named_in_order(s, name),
{
    let y = DirectoryView { name, acls: Seq::empty(), quota: None, valid: false };
    lemma_directory_strict_weak();
    law_stable_sort_keeps_ties::<Directory>(s, y);
    lemma_ties_are_same_name(s, y);
    lemma_ties_are_same_name(stable_sorted::<Directory>(s), y);
}

/// Orders directories by name; directories with the same name keep their order.
pub fn sort_directories(dirs: Vec<Directory>) -> (r: Vec<Directory>)
    ensures
        views(r@) == stable_sorted::<Directory>(views(dirs@)),
        forall|name: Seq<char>| #[trigger] named_in_order(views(r@), name) == named_in_order(views(dirs@), name),
{
    let r = stable_sort(dirs);
    proof {
        assert forall|name: Seq<char>| #[trigger] named_in_order(views(r@), name) == named_in_order(views(dirs@), name) by {
            law_same_names_keep_order(views(dirs@), name);
        }
    }
    r
}

/// The used part of the space, in percent, rounded down.
pub open spec fn used_percent(q: Quota) -> int {
    ((q.total_space - q.available_space) * 100) / (q.total_space as int)
}

/// The used part of the space lies between 0 and 100 percent.
pub proof fn law_used_percent_bounded(q: Quota)
    requires
        q.available_space <= q.total_space,
        q.total_space > 0,
    ensures
        0 <= used_percent(q) <= 100,
{
    let used = q.total_space - q.available_space;
    assert(used * 100 <= (q.total_space as int) * 100);
    assert((used * 100) / (q.total_space as int) <= 100) by (nonlinear_arith)
        requires
            used * 100 <= (q.total_space as int) * 100,
            q.total_space > 0,
            used >= 0,
    ;
    assert((used * 100) / (q.total_space as int) >= 0) by (nonlinear_arith)
        requires
            q.total_space > 0,
            used >= 0,
    ;
}

impl Quota {
    /// The space in use, in bytes.
    pub fn used_space(&self) -> (r: u64)
        requires
            self.available_space <= self.total_space,
        ensures
            r == self.total_space - self.available_space,
    {
        self.total_space - self.available_space
    }

    /// The used part of the space, in percent, rounded down.
    pub fn used_percent(&self) -> (r: u64)
        requires
            self.available_space <= self.total_space,
            self.total_space > 0,
            (self.total_space - self.available_space) * 100 <= u64::MAX,
        ensures
            r == used_percent(*self),
    {
        let used = self.total_space - self.available_space;
        (used * 100) / self.total_space
    }
}

/// The number of bytes in one unit.
pub open spec fn unit_bytes(u: QuotaUnit) -> nat {
    match u {
        QuotaUnit::Megabyte => 1048576,
        QuotaUnit::Gigabyte => 1073741824,
        QuotaUnit::Terabyte => 1099511627776,
    }
}

impl QuotaUnit {
    /// The number of bytes in one unit (1024 × 1024, × 1024 again, × 1024 again).
    pub fn bytes(&self) -> (r: u64)
        ensures
            r == unit_bytes(*self),
    {
        match self {
            QuotaUnit::Megabyte => 1048576,
            QuotaUnit::Gigabyte => 1073741824,
            QuotaUnit::Terabyte => 1099511627776,
        }
    }

    /// The name of the unit in the quota form.
    pub fn label(&self) -> (r: &'static str)
        ensures
            r@ == match *self {
                QuotaUnit::Megabyte => "MiB"@,
                QuotaUnit::Gigabyte => "GiB"@,
                QuotaUnit::Terabyte => "TiB"@,
            },
    {
        match self {
            QuotaUnit::Megabyte => "MiB",
            QuotaUnit::Gigabyte => "GiB",
            QuotaUnit::Terabyte => "TiB",
        }
    }
}

/// The quota in bytes for `value` units.
pub fn quota_bytes(value: u64, unit: QuotaUnit) -> (r: u64)
    requires
        value * unit_bytes(unit) <= u64::MAX,
    ensures
        r == value * unit_bytes(unit),
{
    value * unit.bytes()
}

/// Reads the quota form: the typed number in the chosen unit, for the
/// directory `name`; an unreadable number is an internal error carrying the
/// reason.
pub fn quota_request(name: &String, text: &str, unit: QuotaUnit) -> (r: Result<SetQuota, AppError>)
    requires
        parsed_u64(text@) matches Ok(v) ==> v * unit_bytes(unit) <= u64::MAX,
    ensures
        match parsed_u64(text@) {
            Ok(v) => r matches Ok(q) && q.name == *name && q.quota == v * unit_bytes(unit),
            Err(e) => r matches Err(AppError::InternalError(m)) && m@ == int_parse_error_text(e),
        },
{
    match parse_u64(text) {
        Ok(v) => Ok(SetQuota { name: name.clone(), quota: quota_bytes(v, unit) }),
        Err(e) => Err(AppError::InternalError(e.message())),
    }
}

/// The text the quota field starts with when a directory is selected: its
/// quota in whole mebibytes, or 0 without a quota.
pub open spec fn initial_quota_text(quota: Option<u64>) -> Seq<char> {
    match quota {
        Some(q) => decimal((q / 1024 / 1024) as nat),
        None => "0"@,
    }
}

/// Saving the quota form as it is filled in when a directory is selected (in
/// mebibytes) sends the directory's quota rounded down to whole mebibytes,
/// and 0 (no quota) for a directory without one.
pub proof fn law_initial_quota_saved_back(quota: Option<u64>)
    ensures
        parsed_u64(initial_quota_text(quota)) matches Ok(v) && v * unit_bytes(QuotaUnit::Megabyte) == match quota {
            Some(q) => q - q % 1048576,
            None => 0,
        },
{
    match quota {
        Some(q) => {
            let n: u64 = q / 1048576;
            vstd::arithmetic::div_mod::lemma_div_denominator(q as int, 1024, 1024);
            vstd::arithmetic::div_mod::lemma_fundamental_div_mod(q as int, 1048576);
            assert(n * 1048576 == 1048576 * n);
            law_decimal_parses_back(n);
        },
        None => {
            reveal_strlit("0");
            assert("0"@ =~= decimal(0));
            law_decimal_parses_back(0);
        },
    }
}

/// The text the quota field starts with for a directory's quota.
pub fn initial_quota_field(quota: Option<u64>) -> (r: String)
    ensures
        r@ == initial_quota_text(quota),
{
    match quota {
        Some(q) => decimal_string(q / 1024 / 1024),
        None => String::from_str("0"),
    }
}

/// Whether the user may rename or delete the directory named `name`: only
/// when an administration restriction is set and the name starts with it.
pub open spec fn may_rename(name: Seq<char>, admin_restriction: Option<String>) -> bool {
    admin_restriction matches Some(p) && has_prefix(name, p@)
}

/// Whether the user may rename or delete the directory `name`: only when an
/// administration restriction is set and the name starts with it.
pub fn renamable(name: &str, admin_restriction: &Option<String>) -> (r: bool)
    ensures
        r == (admin_restriction matches Some(p) && has_prefix(name@, p@)),
        r == may_rename(name@, *admin_restriction),
{
    match admin_restriction {
        Some(p) => starts_with(name, p.as_str()),
        None => false,
    }
}

/// The quota units are binary: a mebibyte is 1024 × 1024 bytes, and each
/// unit is 1024 of the one before.
pub proof fn law_units_are_binary()
    ensures
        unit_bytes(QuotaUnit::Megabyte) == 1024 * 1024,
        unit_bytes(QuotaUnit::Gigabyte) == 1024 * unit_bytes(QuotaUnit::Megabyte),
        unit_bytes(QuotaUnit::Terabyte) == 1024 * unit_bytes(QuotaUnit::Gigabyte),
{
}

/// The used percentage is the used part of the space in hundredths, rounded
/// down: it is the greatest whole percentage not above the used part.
pub proof fn law_used_percent_rounds_down(q: Quota)
    requires
        q.available_space <= q.total_space,
        q.total_space > 0,
    ensures
        used_percent(q) * q.total_space <= (q.total_space - q.available_space) * 100,
        (q.total_space - q.available_space) * 100 < (used_percent(q) + 1) * q.total_space,
{
    let used: int = q.total_space - q.available_space;
    let t: int = q.total_space as int;
    vstd::arithmetic::div_mod::lemma_fundamental_div_mod(used * 100, t);
    let p = (used * 100) / t;
    let r = (used * 100) % t;
    assert(0 <= r < t) by {
        vstd::arithmetic::div_mod::lemma_mod_bound(used * 100, t);
    }
    assert(p * t == t * p) by (nonlinear_arith);
    assert((p + 1) * t == p * t + t) by (nonlinear_arith);
}

} // verus!
