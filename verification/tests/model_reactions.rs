use daenerys::acl::{AclEntry, Qualifier};
use daenerys::action::Action;
use daenerys::directory::{Directory, Quota, QuotaUnit};
use daenerys::error::AppError;
use daenerys::group::{Group, MemberChange};
use daenerys::model::{AppModel, Config, Refresh};
use daenerys::state::Theme;
use daenerys::user::User;

fn model() -> AppModel {
    AppModel::new("http://localhost:3000".to_string(), "1.0".to_string())
}

fn entry(q: Qualifier, cn: &str, perm: u32) -> AclEntry {
    AclEntry { qualifier: q, qualifier_cn: Some(cn.to_string()), qualifier_display: None, perm }
}

fn config() -> Config {
    Config {
        admin: "root".to_string(),
        connected_user: "alice".to_string(),
        current_admin_restriction: Some("lab".to_string()),
        users_dsi_api_group_prefix: "lab".to_string(),
        root_groups: None,
        quota: Quota { total_space: 100, available_space: 40 },
    }
}

#[test]
fn new_model_is_idle() {
    let m = model();
    assert_eq!(m.api_url, "http://localhost:3000");
    assert_eq!(m.app_version, "1.0");
    assert_eq!(m.active_action, Action::Home);
    assert!(!m.is_working);
    assert!(m.show_directory_list && m.show_group_list);
    assert_eq!(m.edited_directory_quota_unit, QuotaUnit::Megabyte);
    assert!(!m.ready_to_render());
}

#[test]
fn start_asks_config_once() {
    let mut m = model();
    assert!(m.start());
    assert!(m.is_working && m.pending.config);
    assert!(!m.start());
}

#[test]
fn config_arrival_fetches_lists() {
    let mut m = model();
    m.start();
    let fetch = m.on_config(Ok(config()));
    assert_eq!(fetch, vec![Refresh::Directories, Refresh::Groups]);
    assert!(!m.is_working);
    assert!(m.ready_to_render());
    assert_eq!(m.group_prefix.as_deref(), Some("lab"));
    assert_eq!(m.quota, Some(Quota { total_space: 100, available_space: 40 }));
    assert!(!m.pending.config && m.pending.directories && m.pending.groups);
}

#[test]
fn config_failure_is_shown() {
    let mut m = model();
    m.start();
    let fetch = m.on_config(Err("down".to_string()));
    assert!(fetch.is_empty());
    assert_eq!(m.current_error.as_ref().unwrap().message(), "internal error: down");
    assert!(m.pending.config);
}

#[test]
fn directory_arrival_filters_names_sorts_and_asks() {
    let mut m = model();
    m.on_user_display("known".to_string(), Ok(Some("Known Person".to_string())));
    m.on_user_display("gone".to_string(), Ok(None));
    let dirs = vec![
        Directory {
            name: "zeta".to_string(),
            acls: vec![
                entry(Qualifier::UserObj, "owner", 7),
                entry(Qualifier::User(1), "known", 7),
                entry(Qualifier::User(2), "new", 5),
                entry(Qualifier::Group(3), "team", 0),
            ],
            quota: None,
            valid: true,
        },
        Directory {
            name: "alpha".to_string(),
            acls: vec![entry(Qualifier::User(4), "gone", 7), entry(Qualifier::Group(5), "new", 7)],
            quota: Some(1),
            valid: true,
        },
    ];
    let fetches = m.on_directories(Ok(Some(dirs)));
    assert_eq!(fetches, vec!["new".to_string()]);
    let ds = m.directories.as_ref().unwrap();
    assert_eq!(ds[0].name, "alpha");
    assert_eq!(ds[0].acls[0].qualifier_display.as_deref(), Some("<invalid account> (gone)"));
    assert_eq!(ds[0].acls[1].qualifier_display.as_deref(), Some("new"));
    assert_eq!(ds[1].name, "zeta");
    assert_eq!(ds[1].acls.len(), 2);
    assert_eq!(ds[1].acls[0].qualifier_display.as_deref(), Some("Known Person"));
    // A name already asked for is not asked again.
    let again = m.on_directories(Ok(Some(vec![Directory {
        name: "x".to_string(),
        acls: vec![entry(Qualifier::User(9), "new", 7)],
        quota: None,
        valid: true,
    }])));
    assert!(again.is_empty());
    // Once the answer arrives it is cached and no longer asked for.
    m.on_user_display("new".to_string(), Ok(Some("New Person".to_string())));
    assert!(!m.display_requests.contains_key("new"));
    assert_eq!(m.user_display_cache.get("new"), Some(&Some("New Person".to_string())));
}

#[test]
fn received_display_name_is_used() {
    let mut m = model();
    let dir = || Directory {
        name: "x".to_string(),
        acls: vec![entry(Qualifier::User(9), "bob", 7), entry(Qualifier::User(8), "eve", 7)],
        quota: None,
        valid: true,
    };
    let first = m.on_directories(Ok(Some(vec![dir()])));
    assert_eq!(first, vec!["bob".to_string(), "eve".to_string()]);
    m.on_user_display("bob".to_string(), Ok(Some("Bob B".to_string())));
    m.on_user_display("eve".to_string(), Ok(None));
    let later = m.on_directories(Ok(Some(vec![dir()])));
    assert!(later.is_empty());
    let shown = &m.directories.as_ref().unwrap()[0].acls;
    assert_eq!(shown[0].qualifier_display.as_deref(), Some("Bob B"));
    assert_eq!(shown[1].qualifier_display.as_deref(), Some("<invalid account> (eve)"));
}

#[test]
fn directory_list_absent() {
    let mut m = model();
    let f = m.on_directories(Ok(None));
    assert!(f.is_empty());
    assert!(m.directories.is_none());
    let f = m.on_directories(Err("bad".to_string()));
    assert!(f.is_empty());
    assert!(matches!(&m.current_error, Some(AppError::InternalError(e)) if e == "bad"));
}

#[test]
fn groups_arrive_sorted() {
    let mut m = model();
    m.on_config(Ok(config()));
    let g = |cn: &str| Group { cn: cn.to_string(), description: String::new(), member: None, owner: None };
    m.on_groups(Ok(Some(vec![g("b"), g("lab-invite"), g("a"), g("lab")])));
    let names: Vec<_> = m.groups.as_ref().unwrap().iter().map(|x| x.cn.clone()).collect();
    assert_eq!(names, vec!["lab", "lab-invite", "a", "b"]);
    assert!(!m.pending.groups);
}

#[test]
fn acknowledgements() {
    let mut m = model();
    m.pending.save_acl = true;
    assert_eq!(m.on_acl_saved(Ok(())), Some(Refresh::Directories));
    assert_eq!(m.current_info.as_deref(), Some("acl set successfully"));
    assert!(!m.pending.save_acl && m.pending.directories);
    assert_eq!(m.on_quota_saved(Ok(())), Some(Refresh::Directories));
    assert_eq!(m.current_info.as_deref(), Some("quota set successfully"));
    assert_eq!(m.on_directory_created(Ok(())), Some(Refresh::Directories));
    assert_eq!(m.current_info.as_deref(), Some("directory created successfully"));
    assert_eq!(m.on_group_created(Ok(())), Some(Refresh::Groups));
    assert_eq!(m.current_info.as_deref(), Some("group created successfully"));
    assert_eq!(m.on_group_deleted(Ok(())), Some(Refresh::Groups));
    assert_eq!(m.current_info.as_deref(), Some("group deleted successfully"));
    assert_eq!(m.on_group_deleted(Err("no".to_string())), None);
    assert!(m.current_info.is_none());
    assert_eq!(m.current_error.as_ref().unwrap().message(), "internal error: no");
}

#[test]
fn group_save_progress() {
    let mut m = model();
    m.is_working = true;
    m.pending.save_group = true;
    assert_eq!(m.on_group_save_progress(vec![Some(Ok(())), None]), None);
    assert!(m.pending.save_group && m.is_working);
    assert_eq!(
        m.on_group_save_progress(vec![None, Some(Err("e1".to_string())), Some(Err("e2".to_string()))]),
        None
    );
    assert!(!m.pending.save_group);
    assert!(matches!(&m.current_error, Some(AppError::InternalError(e)) if e == "e1"));
    m.pending.save_group = true;
    assert_eq!(m.on_group_save_progress(vec![Some(Ok(())), Some(Ok(()))]), Some(Refresh::Groups));
    assert!(!m.is_working && !m.pending.save_group && m.pending.groups);
    assert_eq!(m.current_info.as_deref(), Some("group updated successfully"));
    assert_eq!(m.on_group_save_progress(vec![]), Some(Refresh::Groups));
}

#[test]
fn disk_usage_and_users() {
    let mut m = model();
    m.request_disk_usage();
    assert!(m.is_working && m.pending.du);
    m.on_disk_usage(Ok(Some("12G\t.".to_string())));
    assert_eq!(m.active_action, Action::DiskUsage);
    assert_eq!(m.du.as_deref(), Some("12G\t."));
    assert!(!m.pending.du && !m.is_working);
    m.user_search = "al".to_string();
    assert_eq!(m.search_users(), "al");
    m.on_users(Ok(Some(vec![User { id: "al".to_string(), display: "Al".to_string() }])));
    assert_eq!(m.users.as_ref().unwrap().len(), 1);
}

#[test]
fn selecting_and_editing_a_directory() {
    let mut m = model();
    m.current_info = Some("old".to_string());
    m.select_directory(Directory {
        name: "lab@_data".to_string(),
        acls: vec![entry(Qualifier::User(1), "alice", 7)],
        quota: Some(3 * 1024 * 1024),
        valid: true,
    });
    assert_eq!(m.active_action, Action::DirectoryEdit);
    assert_eq!(m.edited_directory_quota, "3");
    assert!(m.current_info.is_none());
    assert!(m.add_acl_user(&"bob".to_string()));
    m.user_search = "x".to_string();
    assert!(!m.add_acl_user(&"bob".to_string()));
    assert_eq!(m.user_search, "x");
    assert!(m.add_acl_group(&"team".to_string()));
    m.toggle_acl_read_only("alice");
    assert_eq!(m.current_directory.as_ref().unwrap().acls[0].perm, 5);
    m.remove_acl("bob");
    assert_eq!(m.current_directory.as_ref().unwrap().acls.len(), 2);
    let set = m.begin_save_acl();
    assert_eq!(set.name, "lab@_data");
    assert_eq!(set.acls.len(), 2);
    assert_eq!(m.current_info.as_deref(), Some("saving acl for lab@_data"));
    assert!(m.pending.save_acl && m.is_working);
}

#[test]
fn saving_a_quota() {
    let mut m = model();
    m.select_directory(Directory { name: "d".to_string(), acls: vec![], quota: None, valid: true });
    m.edited_directory_quota = "2".to_string();
    m.edited_directory_quota_unit = QuotaUnit::Gigabyte;
    let q = m.begin_save_quota().unwrap();
    assert_eq!(q.quota, 2 * 1024 * 1024 * 1024);
    assert_eq!(m.current_info.as_deref(), Some("saving quota for d"));
    m.edited_directory_quota = "two".to_string();
    m.is_working = false;
    assert!(m.begin_save_quota().is_none());
    assert!(!m.is_working);
    assert_eq!(
        m.current_error.as_ref().unwrap().message(),
        "internal error: invalid digit found in string"
    );
}

#[test]
fn editing_group_members() {
    let mut m = model();
    let g = Group {
        cn: "team".to_string(),
        description: "T".to_string(),
        member: Some(vec!["a".to_string(), "b".to_string(), "a".to_string()]),
        owner: None,
    };
    m.select_group(g);
    assert_eq!(m.active_action, Action::GroupEdit);
    m.start_edit_members();
    assert_eq!(m.active_action, Action::GroupEditUsers);
    m.remove_member("a");
    assert_eq!(m.current_group.as_ref().unwrap().member, Some(vec!["b".to_string()]));
    let changes = m.begin_save_group();
    assert_eq!(changes.len(), 2);
    assert!(matches!(&changes[0], MemberChange::Remove(r) if r.user_cn == "a"));
    assert_eq!(m.current_info.as_deref(), Some("saving group team"));
    assert_eq!(m.confirm_delete_group(), "team");
    assert_eq!(m.active_action, Action::Home);
    assert!(m.pending.delete_group);
}

#[test]
fn creation_forms() {
    let mut m = model();
    m.start_create_group();
    assert_eq!(m.active_action, Action::GroupCreate);
    m.create_group_name = "proj".to_string();
    m.create_group_description = "Project".to_string();
    let g = m.begin_create_group();
    assert_eq!(g.cn, "proj");
    assert_eq!(g.description, "Project");
    assert!(g.member.is_none() && g.owner.is_none());
    assert!(m.create_group_name.is_empty() && m.create_group_description.is_empty());
    assert_eq!(m.current_info.as_deref(), Some("creating group proj"));
    m.start_create_directory();
    assert_eq!(m.active_action, Action::DirectoryCreate);
    m.create_directory_name = "data".to_string();
    let d = m.begin_create_directory();
    assert_eq!(d.name, "data");
    assert_eq!(m.current_info.as_deref(), Some("creating directory data"));
    assert!(m.pending.create_directory);
}

#[test]
fn list_toggles() {
    let mut m = model();
    m.toggle_directory_list();
    m.toggle_group_list();
    m.toggle_group_list();
    assert!(!m.show_directory_list && m.show_group_list);
}

#[test]
fn initial_quota_saved_back_rounds_to_mebibytes() {
    let mut m = model();
    m.select_directory(Directory {
        name: "d".to_string(),
        acls: vec![],
        quota: Some(5 * 1024 * 1024 + 7),
        valid: true,
    });
    assert_eq!(m.edited_directory_quota, "5");
    assert_eq!(m.begin_save_quota().unwrap().quota, 5 * 1024 * 1024);
    m.select_directory(Directory { name: "e".to_string(), acls: vec![], quota: None, valid: true });
    assert_eq!(m.edited_directory_quota, "0");
    assert_eq!(m.begin_save_quota().unwrap().quota, 0);
}

#[test]
fn admin_entries_cannot_be_changed() {
    let mut m = model();
    m.on_config(Ok(config()));
    m.select_directory(Directory {
        name: "d".to_string(),
        acls: vec![entry(Qualifier::User(1), "root", 7), entry(Qualifier::User(2), "bob", 7)],
        quota: None,
        valid: true,
    });
    m.toggle_acl_read_only("root");
    assert_eq!(m.current_directory.as_ref().unwrap().acls[0].perm, 7);
    m.remove_acl("root");
    assert_eq!(m.current_directory.as_ref().unwrap().acls.len(), 2);
    m.toggle_acl_read_only("bob");
    assert_eq!(m.current_directory.as_ref().unwrap().acls[1].perm, 5);
    assert_eq!(m.current_directory.as_ref().unwrap().acls[0].perm, 7);
    m.remove_acl("bob");
    let acls = &m.current_directory.as_ref().unwrap().acls;
    assert_eq!(acls.len(), 1);
    assert_eq!(acls[0].qualifier_cn.as_deref(), Some("root"));
}

#[test]
fn same_named_directories_keep_their_order() {
    let mut m = model();
    let dir = |name: &str, quota: u64| Directory { name: name.to_string(), acls: vec![], quota: Some(quota), valid: true };
    m.on_directories(Ok(Some(vec![dir("b", 1), dir("a", 2), dir("b", 3), dir("a", 4)])));
    let got: Vec<(String, Option<u64>)> =
        m.directories.as_ref().unwrap().iter().map(|d| (d.name.clone(), d.quota)).collect();
    assert_eq!(
        got,
        vec![
            ("a".to_string(), Some(2)),
            ("a".to_string(), Some(4)),
            ("b".to_string(), Some(1)),
            ("b".to_string(), Some(3)),
        ]
    );
}

#[test]
fn invalid_directory_cannot_be_selected() {
    let mut m = model();
    m.select_directory(Directory { name: "bad name".to_string(), acls: vec![], quota: None, valid: false });
    assert!(m.current_directory.is_none());
    assert_eq!(m.active_action, Action::Home);
}

#[test]
fn deleting_and_renaming_a_directory() {
    let mut m = model();
    m.on_config(Ok(config()));
    m.select_directory(Directory { name: "other".to_string(), acls: vec![], quota: None, valid: true });
    m.start_rename_directory();
    assert_eq!(m.active_action, Action::DirectoryEdit);
    assert!(m.begin_delete_directory().is_none());
    assert!(!m.is_working && m.current_info.is_none());
    m.create_directory_name = "new".to_string();
    assert!(m.begin_rename_directory().is_none());
    assert_eq!(m.create_directory_name, "new");

    m.select_directory(Directory { name: "lab@_data".to_string(), acls: vec![], quota: None, valid: true });
    m.start_rename_directory();
    assert_eq!(m.active_action, Action::DirectoryEditRename);
    let r = m.begin_rename_directory().unwrap();
    assert_eq!((r.name.as_str(), r.new_name.as_str()), ("lab@_data", "new"));
    assert_eq!(m.current_info.as_deref(), Some("renaming directory new"));
    assert!(m.create_directory_name.is_empty() && m.is_working && m.pending.rename_directory);
    assert_eq!(m.on_directory_renamed(Ok(())), Some(Refresh::Directories));
    assert_eq!(m.current_info.as_deref(), Some("directory renamed successfully"));
    assert!(!m.pending.rename_directory && m.pending.directories);

    let d = m.begin_delete_directory().unwrap();
    assert_eq!(d.name, "lab@_data");
    assert_eq!(m.current_info.as_deref(), Some("deleting directory lab@_data"));
    assert!(m.is_working && m.pending.delete_directory);
    assert_eq!(m.on_directory_deleted(Err("no".to_string())), None);
    assert_eq!(m.current_error.as_ref().unwrap().message(), "internal error: no");
    assert_eq!(m.on_directory_deleted(Ok(())), Some(Refresh::Directories));
    assert_eq!(m.current_info.as_deref(), Some("directory deleted successfully"));
}

#[test]
fn screen_transitions() {
    let mut m = model();
    m.users = Some(vec![User { id: "u".to_string(), display: "U".to_string() }]);
    m.start_edit_acl();
    assert_eq!(m.active_action, Action::DirectoryEditAcl);
    m.start_add_acl_user();
    assert_eq!(m.active_action, Action::DirectoryEditAclAddUser);
    assert!(m.users.is_none());
    m.finish_add_acl_user();
    assert_eq!(m.active_action, Action::DirectoryEditAcl);
    m.start_add_acl_group();
    assert_eq!(m.active_action, Action::DirectoryEditAclAddGroup);
    m.start_edit_quota();
    assert_eq!(m.active_action, Action::DirectoryEditQuota);
    m.ask_delete_group();
    assert_eq!(m.active_action, Action::GroupEditDeleteConfirm);
    m.start_add_member();
    assert_eq!(m.active_action, Action::GroupEditAddUser);
    m.finish_add_member();
    assert_eq!(m.active_action, Action::GroupEditUsers);
    m.reload_directories();
    m.reload_groups();
    assert!(m.pending.directories && m.pending.groups);
    m.select_theme(Theme::CarlDark);
    assert_eq!(m.state.active_theme, Theme::CarlDark);
}
