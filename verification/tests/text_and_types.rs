use daenerys::acl::{
    add_group_entry, add_user_entry, keep_listed, remove_subject, sort_by_display,
    toggle_read_only_of, AclEntry, Qualifier,
};
use daenerys::action::Action;
use daenerys::directory::{
    initial_quota_field, quota_bytes, quota_request, renamable, sort_directories, Directory, Quota,
    QuotaUnit,
};
use daenerys::error::AppError;
use daenerys::message::{worker_reply, ToAppMessage, ToWorker, ToWorkerMessage};
use daenerys::state::{ApplicationState, Page, Theme};
use daenerys::text::{
    compare_text, decimal_string, parse_u64, same_text, starts_with, IntParseError,
    Order,
};

fn entry(q: Qualifier, cn: Option<&str>, display: Option<&str>, perm: u32) -> AclEntry {
    AclEntry {
        qualifier: q,
        qualifier_cn: cn.map(|s| s.to_string()),
        qualifier_display: display.map(|s| s.to_string()),
        perm,
    }
}

#[test]
fn decimal_rendering_matches_to_string() {
    for n in [0u64, 7, 10, 99, 12345, 1_000_000, u64::MAX] {
        assert_eq!(decimal_string(n), n.to_string());
    }
}

#[test]
fn parse_accepts_what_std_accepts() {
    let cases = [
        "0", "42", "+7", "", "+", "-", "-5", "12a", "a12", " 1", "007",
        "18446744073709551615", "18446744073709551616", "99999999999999999999x", "1é",
    ];
    for c in cases {
        let std_result = c.parse::<u64>();
        let ours = parse_u64(c);
        match (std_result, ours) {
            (Ok(a), Ok(b)) => assert_eq!(a, b, "{c}"),
            (Err(e), Err(k)) => assert_eq!(e.to_string(), k.message(), "{c}"),
            (a, b) => panic!("{c}: std {:?}, ours {:?}", a, b),
        }
    }
}

#[test]
fn parse_error_kinds() {
    assert_eq!(parse_u64(""), Err(IntParseError::Empty));
    assert_eq!(parse_u64("+"), Err(IntParseError::InvalidDigit));
    assert_eq!(parse_u64("12x"), Err(IntParseError::InvalidDigit));
    assert_eq!(parse_u64("18446744073709551616"), Err(IntParseError::PosOverflow));
    assert_eq!(parse_u64("18446744073709551615"), Ok(u64::MAX));
    assert_eq!(parse_u64("+15"), Ok(15));
}

#[test]
fn decimal_parses_back() {
    for n in [0u64, 5, 10, 4096, 1 << 40, u64::MAX] {
        assert_eq!(parse_u64(&decimal_string(n)), Ok(n));
    }
}

#[test]
fn text_comparison_agrees_with_str_order() {
    let words = ["", "a", "b", "ab", "abc", "B", "é", "z", "zz", "Zoé", "élan"];
    for a in words {
        for b in words {
            let expected = match a.cmp(b) {
                std::cmp::Ordering::Less => Order::Less,
                std::cmp::Ordering::Equal => Order::Equal,
                std::cmp::Ordering::Greater => Order::Greater,
            };
            assert_eq!(compare_text(a, b), expected, "{a} {b}");
            assert_eq!(same_text(a, b), a == b);
        }
    }
}

#[test]
fn prefix_test() {
    assert!(starts_with("directory_edit_acl", "directory_edit"));
    assert!(starts_with("abc", ""));
    assert!(!starts_with("dir", "directory"));
    assert!(!starts_with("group_create", "group_edit"));
}

#[test]
fn app_error_messages() {
    assert_eq!(AppError::TestError.message(), "just a test error, nothing anormal");
    assert_eq!(AppError::ChannelClosed.message(), "channel closed");
    assert_eq!(AppError::ChannelReceiveError.message(), "channel receive error");
    assert_eq!(AppError::ChannelSendError.message(), "channel send error");
    assert_eq!(
        AppError::InternalError("boom".to_string()).message(),
        "internal error: boom"
    );
}

#[test]
fn qualifier_labels() {
    assert_eq!(Qualifier::Undefined.label(), "Undefined");
    assert_eq!(Qualifier::UserObj.label(), "UserObj");
    assert_eq!(Qualifier::GroupObj.label(), "GroupObj");
    assert_eq!(Qualifier::Other.label(), "Other");
    assert_eq!(Qualifier::User(1001).label(), "User:1001");
    assert_eq!(Qualifier::Group(0).label(), "Group:0");
    assert_eq!(Qualifier::Mask.label(), "Mask");
}

#[test]
fn listed_entries_are_user_and_group_entries_with_permissions() {
    let mut acls = vec![
        entry(Qualifier::UserObj, None, None, 7),
        entry(Qualifier::User(1), Some("alice"), None, 7),
        entry(Qualifier::Group(2), Some("team"), None, 0),
        entry(Qualifier::Mask, None, None, 7),
        entry(Qualifier::Group(3), Some("staff"), None, 5),
        entry(Qualifier::Other, None, None, 4),
    ];
    keep_listed(&mut acls);
    assert_eq!(
        acls,
        vec![
            entry(Qualifier::User(1), Some("alice"), None, 7),
            entry(Qualifier::Group(3), Some("staff"), None, 5),
        ]
    );
    let again = acls.clone();
    keep_listed(&mut acls);
    assert_eq!(acls, again);
}

#[test]
fn read_only_toggle_flips_write_bit() {
    for p in 0u32..8 {
        let mut e = entry(Qualifier::User(1), Some("u"), None, p);
        let before = e.is_read_only();
        e.toggle_read_only();
        assert_eq!(e.perm, p ^ 2);
        assert_eq!(e.is_read_only(), !before);
        e.toggle_read_only();
        assert_eq!(e.perm, p);
    }
    assert!(entry(Qualifier::User(1), Some("u"), None, 5).is_read_only());
    assert!(!entry(Qualifier::User(1), Some("u"), None, 7).is_read_only());
}

#[test]
fn toggle_only_touches_the_named_subject() {
    let mut acls = vec![
        entry(Qualifier::User(1), Some("alice"), None, 7),
        entry(Qualifier::Group(2), Some("team"), None, 5),
        entry(Qualifier::User(3), Some("alice"), None, 5),
    ];
    toggle_read_only_of(&mut acls, "alice");
    assert_eq!(acls[0].perm, 5);
    assert_eq!(acls[1].perm, 5);
    assert_eq!(acls[2].perm, 7);
}

#[test]
fn adding_user_twice_adds_once() {
    let mut acls = vec![entry(Qualifier::Group(2), Some("bob"), None, 7)];
    let id = "bob".to_string();
    assert!(add_user_entry(&mut acls, &id));
    assert_eq!(acls.len(), 2);
    assert_eq!(acls[1], entry(Qualifier::User(0), Some("bob"), Some("bob"), 7));
    assert!(!add_user_entry(&mut acls, &id));
    assert_eq!(acls.len(), 2);
}

#[test]
fn adding_group_twice_adds_once() {
    let mut acls = vec![entry(Qualifier::User(2), Some("team"), None, 7)];
    let cn = "team".to_string();
    assert!(add_group_entry(&mut acls, &cn));
    assert_eq!(acls[1], entry(Qualifier::Group(0), Some("team"), Some("team"), 7));
    assert!(!add_group_entry(&mut acls, &cn));
    assert_eq!(acls.len(), 2);
}

#[test]
fn removing_a_subject_keeps_the_rest() {
    let mut acls = vec![
        entry(Qualifier::User(1), Some("alice"), None, 7),
        entry(Qualifier::Other, None, None, 4),
        entry(Qualifier::Group(2), Some("alice"), None, 5),
        entry(Qualifier::User(3), Some("carol"), None, 5),
    ];
    remove_subject(&mut acls, "alice");
    assert_eq!(
        acls,
        vec![
            entry(Qualifier::Other, None, None, 4),
            entry(Qualifier::User(3), Some("carol"), None, 5),
        ]
    );
}

#[test]
fn entries_sort_by_shown_name_stably() {
    let acls = vec![
        entry(Qualifier::User(1), Some("z"), Some("Zed"), 7),
        entry(Qualifier::User(2), Some("a"), Some("Amy"), 7),
        entry(Qualifier::User(3), Some("n"), None, 7),
        entry(Qualifier::User(4), Some("b"), Some("Amy"), 5),
    ];
    let sorted = sort_by_display(acls);
    let cns: Vec<_> = sorted.iter().map(|e| e.qualifier_cn.clone().unwrap()).collect();
    assert_eq!(cns, vec!["n", "a", "b", "z"]);
}

#[test]
fn admin_entry() {
    let e = entry(Qualifier::User(1), Some("root"), None, 7);
    assert!(e.is_admin("root"));
    assert!(!e.is_admin("alice"));
}

#[test]
fn quota_arithmetic() {
    let q = Quota { total_space: 1000, available_space: 250 };
    assert_eq!(q.used_space(), 750);
    assert_eq!(q.used_percent(), 75);
    let full = Quota { total_space: 3, available_space: 0 };
    assert_eq!(full.used_percent(), 100);
    let empty = Quota { total_space: 3, available_space: 3 };
    assert_eq!(empty.used_percent(), 0);
    assert_eq!(quota_bytes(3, QuotaUnit::Megabyte), 3 * 1024 * 1024);
    assert_eq!(quota_bytes(2, QuotaUnit::Gigabyte), 2 * 1024 * 1024 * 1024);
    assert_eq!(quota_bytes(1, QuotaUnit::Terabyte), 1024u64 * 1024 * 1024 * 1024);
    assert_eq!(QuotaUnit::Gigabyte.label(), "GiB");
}

#[test]
fn quota_form() {
    let name = "projects".to_string();
    let ok = quota_request(&name, "5", QuotaUnit::Gigabyte).unwrap();
    assert_eq!(ok.name, "projects");
    assert_eq!(ok.quota, 5 * 1024 * 1024 * 1024);
    match quota_request(&name, "5x", QuotaUnit::Megabyte) {
        Err(AppError::InternalError(m)) => assert_eq!(m, "5x".parse::<u64>().unwrap_err().to_string()),
        other => panic!("unexpected {:?}", other),
    }
    match quota_request(&name, "", QuotaUnit::Megabyte) {
        Err(AppError::InternalError(m)) => assert_eq!(m, "cannot parse integer from empty string"),
        other => panic!("unexpected {:?}", other),
    }
}

#[test]
fn initial_quota_text() {
    assert_eq!(initial_quota_field(None), "0");
    assert_eq!(initial_quota_field(Some(5 * 1024 * 1024 + 12)), "5");
    assert_eq!(initial_quota_field(Some(1000)), "0");
}

#[test]
fn rename_needs_restriction_prefix() {
    let r = Some("lab".to_string());
    assert!(renamable("lab@_data", &r));
    assert!(!renamable("other", &r));
    assert!(!renamable("lab@_data", &None));
}

#[test]
fn directories_sort_by_name() {
    let d = |n: &str, v: bool| Directory { name: n.to_string(), acls: vec![], quota: None, valid: v };
    let sorted = sort_directories(vec![d("zeta", true), d("alpha", false), d("mid", true), d("alpha", true)]);
    let names: Vec<_> = sorted.iter().map(|x| (x.name.clone(), x.valid)).collect();
    assert_eq!(
        names,
        vec![
            ("alpha".to_string(), false),
            ("alpha".to_string(), true),
            ("mid".to_string(), true),
            ("zeta".to_string(), true)
        ]
    );
}

#[test]
fn action_names_and_sections() {
    let all = [
        (Action::Home, "home"),
        (Action::DiskUsage, "disk_usage"),
        (Action::DirectoryEdit, "directory_edit"),
        (Action::DirectoryCreate, "directory_create"),
        (Action::DirectoryEditAcl, "directory_edit_acl"),
        (Action::DirectoryEditQuota, "directory_edit_quota"),
        (Action::DirectoryEditAclAddUser, "directory_edit_acl_add_user"),
        (Action::DirectoryEditAclAddGroup, "directory_edit_acl_add_group"),
        (Action::DirectoryEditRename, "directory_edit_rename"),
        (Action::GroupEdit, "group_edit"),
        (Action::GroupCreate, "group_create"),
        (Action::GroupEditDeleteConfirm, "group_edit_delete_confirm"),
        (Action::GroupEditAddUser, "group_edit_add_user"),
        (Action::GroupEditUsers, "group_edit_users"),
    ];
    for (a, n) in all {
        assert_eq!(a.name(), n);
        assert_eq!(a.shows_directory(), n.starts_with("directory_edit"));
        assert_eq!(a.shows_group(), n.starts_with("group_edit"));
        let s = a.central_sections();
        assert_eq!(s.home, a == Action::Home);
        assert_eq!(s.disk_usage, a == Action::DiskUsage);
        assert_eq!(s.create_directory, a == Action::DirectoryCreate);
        assert_eq!(s.create_group, a == Action::GroupCreate);
        assert_eq!(s.directory, a.shows_directory());
        assert_eq!(s.group, a.shows_group());
        let shown = [s.disk_usage, s.home, s.create_directory, s.create_group, s.directory, s.group];
        assert_eq!(shown.iter().filter(|b| **b).count(), 1);
    }
}

#[test]
fn application_state_starts_on_main_page() {
    assert_eq!(ApplicationState::new().active_page, Page::Main);
    assert_eq!(ApplicationState::new().active_theme, Theme::StandardDark);
    assert_eq!(Theme::StandardDark.name(), "Standard Dark");
    assert_eq!(Theme::StandardLight.name(), "Standard Light");
    assert_eq!(Theme::CarlDark.name(), "Carl Dark");
    assert!(Theme::CarlDark.is_dark() && !Theme::StandardLight.is_dark());
    assert_eq!(ApplicationState::default(), ApplicationState::new());
}

#[test]
fn worker_answers() {
    let r = worker_reply(Some(ToWorker { message: ToWorkerMessage::Ping }));
    assert!(matches!(r.message, ToAppMessage::Pong));
    let r = worker_reply(None);
    assert!(matches!(r.message, ToAppMessage::Error(AppError::ChannelReceiveError)));
}
