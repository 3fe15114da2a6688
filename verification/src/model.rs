//! The state of the client and how it reacts to what happens: the answers of
//! the API to the calls it made, and what the user does. Each reaction says
//! which calls to start next; the caller performs them and reports their
//! answers back.

use vstd::prelude::*;
use vstd::hash_map::StringHashMap;

use crate::acl::{
    AclEntry, SetAcl, add_group_entry, add_user_entry, all_named, copy_entries, groups_named,
    has_group_entry, has_user_entry, new_group_entry, new_user_entry, remove_subject,
    toggle_read_only_of, users_named, without_subject, names_subject, write_toggled,
    law_remove_subject, is_admin_name, removal_result, toggle_result, with_user_entry,
    with_group_entry,
};
use crate::action::Action;
use crate::directory::{
    CreateDirectory, Directory, Quota, QuotaUnit, RenameDirectory, SetQuota, initial_quota_field,
    initial_quota_text, may_rename, quota_request, renamable, unit_bytes,
};
use crate::error::AppError;
use crate::group::{Group, MemberChange, same_group, change_view, group_list_order, plan_member_changes, planned_changes, sort_groups};
use crate::listing::{
    directories_named, prepare_directories, prepared_directories, unknown_in_directories,
};
use crate::sort::views;
use crate::state::{ApplicationState, Page, Theme};
use crate::text::{int_parse_error_text, joined, parsed_u64, same_text, texts_view};
use crate::user::{DisplayCache, User};

verus! {

/// The settings of the STORM space, as the API gives them.
#[derive(Clone, Debug, PartialEq, Eq)]
pub struct Config {
    pub admin: String,
    pub connected_user: String,
    pub current_admin_restriction: Option<String>,
    pub users_dsi_api_group_prefix: String,
    pub root_groups: Option<Vec<String>>,
    pub quota: Quota,
}

/// The calls to the API whose answer the client is waiting for.
#[derive(Clone, Copy, Debug, PartialEq, Eq, Structural)]
pub struct Pending {
    pub du: bool,
    pub config: bool,
    pub directories: bool,
    pub groups: bool,
    pub users: bool,
    pub create_directory: bool,
    pub save_acl: bool,
    pub save_quota: bool,
    pub save_group: bool,
    pub create_group: bool,
    pub delete_group: bool,
    pub delete_directory: bool,
    pub rename_directory: bool,
}

/// No call under way.
pub open spec fn nothing_pending() -> Pending {
    Pending {
        du: false,
        config: false,
        directories: false,
        groups: false,
        users: false,
        create_directory: false,
        save_acl: false,
        save_quota: false,
        save_group: false,
        create_group: false,
        delete_group: false,
        delete_directory: false,
        rename_directory: false,
    }
}

/// A list the client has to fetch again.
#[derive(Clone, Copy, Debug, PartialEq, Eq, Structural)]
pub enum Refresh {
    Directories,
    Groups,
}

/// The state of the client.
pub struct AppModel {
    pub state: ApplicationState,
    pub active_action: Action,
    pub app_version: String,
    pub api_url: String,
    /// The disk usage report.
    pub du: Option<String>,
    pub quota: Option<Quota>,
    /// The administrator of the space.
    pub admin: Option<String>,
    pub connected_user: Option<String>,
    pub current_admin_restriction: Option<String>,
    pub group_prefix: Option<String>,
    pub root_groups: Option<Vec<String>>,
    pub directories: Option<Vec<Directory>>,
    pub groups: Option<Vec<Group>>,
    /// The result of the last user search.
    pub users: Option<Vec<User>>,
    pub user_display_cache: DisplayCache,
    /// The user names whose display name has been asked for and not received.
    pub display_requests: StringHashMap<()>,
    pub pending: Pending,
    pub current_error: Option<AppError>,
    pub current_info: Option<String>,
    pub current_directory: Option<Directory>,
    pub current_group: Option<Group>,
    /// The group as it was before its members were edited.
    pub current_group_backup: Option<Group>,
    pub create_directory_name: String,
    pub edited_directory_quota: String,
    pub edited_directory_quota_unit: QuotaUnit,
    pub user_search: String,
    pub create_group_name: String,
    pub create_group_description: String,
    /// Whether a call is under way that the user waits for.
    pub is_working: bool,
    pub show_directory_list: bool,
    pub show_group_list: bool,
    /// Whether the first call (for the settings) has been made.
    pub started: bool,
}

/// The group list as the interface shows it, for an optional prefix.
pub open spec fn shown_groups(gs: Seq<Group>, prefix: Option<String>) -> Seq<Group> {
    match prefix {
        Some(p) => group_list_order(gs, p@),
        None => gs,
    }
}

/// The state after a call that only acknowledges succeeded: the user no
/// longer waits, the info text is `msg`, and the calls under way are
/// `pending`.
pub open spec fn acknowledged(old: AppModel, new: AppModel, pending: Pending, msg: Seq<char>) -> bool {
    &&& new == (AppModel { is_working: false, current_info: new.current_info, pending, ..old })
    &&& new.current_info matches Some(s) && s@ == msg
}

/// The state after a call failed with `e`: the user no longer waits, the
/// error is shown and the info text cleared; the call stays awaited.
pub open spec fn refused(old: AppModel, new: AppModel, e: String) -> bool {
    new == (AppModel {
        is_working: false,
        current_error: Some(AppError::InternalError(e)),
        current_info: None,
        ..old
    })
}

/// The first failure among the answers received so far, in order.
pub open spec fn first_failure(s: Seq<Option<Result<(), String>>>) -> Option<String>
    decreases s.len(),
{
    if s.len() == 0 {
        None
    } else {
        match s[0] {
            Some(Err(e)) => Some(e),
            _ => first_failure(s.drop_first()),
        }
    }
}

/// Whether every call has answered with success.
pub open spec fn all_succeeded(s: Seq<Option<Result<(), String>>>) -> bool {
    forall|i: int| 0 <= i < s.len() ==> (#[trigger] s[i]) matches Some(Ok(_))
}

impl AppModel {
    /// The state of a client that has just started for the API at `api_url`.
    pub fn new(api_url: String, app_version: String) -> (r: AppModel)
        ensures
            r.api_url == api_url,
            r.app_version == app_version,
            r.state.active_page == Page::Main,
            r.active_action == Action::Home,
            r.du is None && r.quota is None && r.admin is None && r.connected_user is None,
            r.current_admin_restriction is None && r.group_prefix is None && r.root_groups is None,
            r.directories is None && r.groups is None && r.users is None,
            r.user_display_cache@ == Map::<Seq<char>, Option<String>>::empty(),
            r.display_requests@ == Map::<Seq<char>, ()>::empty(),
            r.pending == nothing_pending(),
            r.current_error is None && r.current_info is None,
            r.current_directory is None && r.current_group is None && r.current_group_backup is None,
            r.create_directory_name@.len() == 0,
            r.edited_directory_quota@.len() == 0,
            r.edited_directory_quota_unit == QuotaUnit::Megabyte,
            r.user_search@.len() == 0,
            r.create_group_name@.len() == 0,
            r.create_group_description@.len() == 0,
            !r.is_working,
            r.show_directory_list && r.show_group_list,
            !r.started,
    {
        AppModel {
            state: ApplicationState::new(),
            active_action: Action::Home,
            app_version,
            api_url,
            du: None,
            quota: None,
            admin: None,
            connected_user: None,
            current_admin_restriction: None,
            group_prefix: None,
            root_groups: None,
            directories: None,
            groups: None,
            users: None,
            user_display_cache: StringHashMap::new(),
            display_requests: StringHashMap::new(),
            pending: Pending {
                du: false,
                config: false,
                directories: false,
                groups: false,
                users: false,
                create_directory: false,
                save_acl: false,
                save_quota: false,
                save_group: false,
                create_group: false,
                delete_group: false,
                delete_directory: false,
                rename_directory: false,
            },
            current_error: None,
            current_info: None,
            current_directory: None,
            current_group: None,
            current_group_backup: None,
            create_directory_name: String::new(),
            edited_directory_quota: String::new(),
            edited_directory_quota_unit: QuotaUnit::Megabyte,
            user_search: String::new(),
            create_group_name: String::new(),
            create_group_description: String::new(),
            is_working: false,
            show_directory_list: true,
            show_group_list: true,
            started: false,
        }
    }

    /// Whether the pages can be shown: once the administrator and the group
    /// prefix are known.
    pub fn ready_to_render(&self) -> (r: bool)
        ensures
            r == (self.admin is Some && self.group_prefix is Some),
    {
        self.admin.is_some() && self.group_prefix.is_some()
    }

    /// Called on every frame: the first time, starts the call for the
    /// settings of the space and tells so; afterwards does nothing.
    pub fn start(&mut self) -> (asks_config: bool)
        ensures
            asks_config == !old(self).started,
            asks_config ==> *final(self) == (AppModel {
                started: true,
                is_working: true,
                pending: Pending { config: true, ..old(self).pending },
                ..*old(self)
            }),
            !asks_config ==> *final(self) == *old(self),
    {
        if self.started {
            false
        } else {
            self.started = true;
            self.is_working = true;
            self.pending.config = true;
            true
        }
    }

    /// A display name arrived for `username`: it is cached and no longer
    /// asked for; a failure becomes the current error.
    pub fn on_user_display(&mut self, username: String, result: Result<Option<String>, String>)
        ensures
            match result {
                Ok(d) => *final(self) == (AppModel {
                    user_display_cache: final(self).user_display_cache,
                    display_requests: final(self).display_requests,
                    ..*old(self)
                }) && final(self).user_display_cache@ == old(self).user_display_cache@.insert(username@, d)
                    && final(self).display_requests@ == old(self).display_requests@.remove(username@),
                Err(e) => *final(self) == (AppModel {
                    current_error: Some(AppError::InternalError(e)),
                    ..*old(self)
                }),
            },
    {
        match result {
            Ok(d) => {
                self.display_requests.remove(username.as_str());
                self.user_display_cache.insert(username, d);
            },
            Err(e) => {
                self.current_error = Some(AppError::InternalError(e));
            },
        }
    }

    /// The disk usage report arrived: it is shown; a failure becomes the
    /// current error and the call stays awaited.
    pub fn on_disk_usage(&mut self, result: Result<Option<String>, String>)
        ensures
            match result {
                Ok(du) => *final(self) == (AppModel {
                    is_working: false,
                    du,
                    active_action: Action::DiskUsage,
                    pending: Pending { du: false, ..old(self).pending },
                    ..*old(self)
                }),
                Err(e) => *final(self) == (AppModel {
                    is_working: false,
                    current_error: Some(AppError::InternalError(e)),
                    ..*old(self)
                }),
            },
    {
        self.is_working = false;
        match result {
            Ok(du) => {
                self.du = du;
                self.active_action = Action::DiskUsage;
                self.pending.du = false;
            },
            Err(e) => {
                self.current_error = Some(AppError::InternalError(e));
            },
        }
    }

    /// The settings of the space arrived: they are kept, and the directory
    /// and group lists are fetched; a failure becomes the current error.
    pub fn on_config(&mut self, result: Result<Config, String>) -> (fetch: Vec<Refresh>)
        ensures
            match result {
                Ok(c) => *final(self) == (AppModel {
                    is_working: false,
                    admin: Some(c.admin),
                    connected_user: Some(c.connected_user),
                    current_admin_restriction: c.current_admin_restriction,
                    group_prefix: Some(c.users_dsi_api_group_prefix),
                    root_groups: c.root_groups,
                    quota: Some(c.quota),
                    pending: Pending { config: false, directories: true, groups: true, ..old(self).pending },
                    ..*old(self)
                }) && fetch@ == seq![Refresh::Directories, Refresh::Groups],
                Err(e) => *final(self) == (AppModel {
                    is_working: false,
                    current_error: Some(AppError::InternalError(e)),
                    ..*old(self)
                }) && fetch@.len() == 0,
            },
    {
        self.is_working = false;
        let mut fetch: Vec<Refresh> = Vec::new();
        match result {
            Ok(c) => {
                self.admin = Some(c.admin);
                self.connected_user = Some(c.connected_user);
                self.current_admin_restriction = c.current_admin_restriction;
                self.group_prefix = Some(c.users_dsi_api_group_prefix);
                self.root_groups = c.root_groups;
                self.quota = Some(c.quota);
                self.pending.config = false;
                self.pending.directories = true;
                self.pending.groups = true;
                fetch.push(Refresh::Directories);
                fetch.push(Refresh::Groups);
            },
            Err(e) => {
                self.current_error = Some(AppError::InternalError(e));
            },
        }
        fetch
    }

    /// The user search arrived: its result is kept; a failure becomes the
    /// current error.
    pub fn on_users(&mut self, result: Result<Option<Vec<User>>, String>)
        ensures
            match result {
                Ok(us) => *final(self) == (AppModel {
                    is_working: false,
                    users: us,
                    pending: Pending { users: false, ..old(self).pending },
                    ..*old(self)
                }),
                Err(e) => *final(self) == (AppModel {
                    is_working: false,
                    current_error: Some(AppError::InternalError(e)),
                    ..*old(self)
                }),
            },
    {
        self.is_working = false;
        match result {
            Ok(us) => {
                self.users = us;
                self.pending.users = false;
            },
            Err(e) => {
                self.current_error = Some(AppError::InternalError(e));
            },
        }
    }

    /// The group list arrived: it is kept in the order the interface shows
    /// (see `group_list_order`); a failure becomes the current error.
    pub fn on_groups(&mut self, result: Result<Option<Vec<Group>>, String>)
        requires
            result matches Ok(Some(gs)) && gs@.len() >= 2 ==> old(self).group_prefix is Some,
        ensures
            match result {
                Ok(gs) => *final(self) == (AppModel {
                    is_working: false,
                    groups: final(self).groups,
                    pending: Pending { groups: false, ..old(self).pending },
                    ..*old(self)
                }) && match gs {
                    Some(v) => final(self).groups matches Some(w) && w@ == shown_groups(v@, old(self).group_prefix),
                    None => final(self).groups is None,
                },
                Err(e) => *final(self) == (AppModel {
                    is_working: false,
                    current_error: Some(AppError::InternalError(e)),
                    ..*old(self)
                }),
            },
    {
        self.is_working = false;
        match result {
            Ok(gs) => {
                match gs {
                    Some(v) => {
                        let sorted = match &self.group_prefix {
                            Some(p) => sort_groups(v, p.as_str()),
                            None => v,
                        };
                        self.groups = Some(sorted);
                    },
                    None => {
                        self.groups = None;
                    },
                }
                self.pending.groups = false;
            },
            Err(e) => {
                self.current_error = Some(AppError::InternalError(e));
            },
        }
    }

    fn acknowledge(&mut self, result: Result<(), String>, msg: &str) -> (ok: bool)
        ensures
            ok == result is Ok,
            match result {
                Ok(_) => acknowledged(*old(self), *final(self), old(self).pending, msg@),
                Err(e) => refused(*old(self), *final(self), e),
            },
    {
        self.is_working = false;
        match result {
            Ok(_) => {
                self.current_info = Some(String::from_str(msg));
                true
            },
            Err(e) => {
                self.current_error = Some(AppError::InternalError(e));
                self.current_info = None;
                false
            },
        }
    }

    /// Saving an access control list answered: on success the info tells so
    /// and the directories are fetched again; a failure becomes the error.
    pub fn on_acl_saved(&mut self, result: Result<(), String>) -> (refresh: Option<Refresh>)
        ensures
            match result {
                Ok(_) => acknowledged(*old(self), *final(self),
                    Pending { save_acl: false, directories: true, ..old(self).pending },
                    "acl set successfully"@) && refresh == Some(Refresh::Directories),
                Err(e) => refused(*old(self), *final(self), e) && refresh is None,
            },
    {
        proof { reveal_strlit("acl set successfully"); }
        if self.acknowledge(result, "acl set successfully") {
            self.pending.save_acl = false;
            self.pending.directories = true;
            Some(Refresh::Directories)
        } else {
            None
        }
    }

    /// Saving a quota answered: on success the info tells so and the
    /// directories are fetched again; a failure becomes the error.
    pub fn on_quota_saved(&mut self, result: Result<(), String>) -> (refresh: Option<Refresh>)
        ensures
            match result {
                Ok(_) => acknowledged(*old(self), *final(self),
                    Pending { save_quota: false, directories: true, ..old(self).pending },
                    "quota set successfully"@) && refresh == Some(Refresh::Directories),
                Err(e) => refused(*old(self), *final(self), e) && refresh is None,
            },
    {
        if self.acknowledge(result, "quota set successfully") {
            self.pending.save_quota = false;
            self.pending.directories = true;
            Some(Refresh::Directories)
        } else {
            None
        }
    }

    /// Creating a directory answered: on success the info tells so and the
    /// directories are fetched again; a failure becomes the error.
    pub fn on_directory_created(&mut self, result: Result<(), String>) -> (refresh: Option<Refresh>)
        ensures
            match result {
                Ok(_) => acknowledged(*old(self), *final(self),
                    Pending { create_directory: false, directories: true, ..old(self).pending },
                    "directory created successfully"@) && refresh == Some(Refresh::Directories),
                Err(e) => refused(*old(self), *final(self), e) && refresh is None,
            },
    {
        if self.acknowledge(result, "directory created successfully") {
            self.pending.create_directory = false;
            self.pending.directories = true;
            Some(Refresh::Directories)
        } else {
            None
        }
    }

    /// Creating a group answered: on success the info tells so and the groups
    /// are fetched again; a failure becomes the error.
    pub fn on_group_created(&mut self, result: Result<(), String>) -> (refresh: Option<Refresh>)
        ensures
            match result {
                Ok(_) => acknowledged(*old(self), *final(self),
                    Pending { create_group: false, groups: true, ..old(self).pending },
                    "group created successfully"@) && refresh == Some(Refresh::Groups),
                Err(e) => refused(*old(self), *final(self), e) && refresh is None,
            },
    {
        if self.acknowledge(result, "group created successfully") {
            self.pending.create_group = false;
            self.pending.groups = true;
            Some(Refresh::Groups)
        } else {
            None
        }
    }

    /// Deleting a group answered: on success the info tells so and the groups
    /// are fetched again; a failure becomes the error.
    pub fn on_group_deleted(&mut self, result: Result<(), String>) -> (refresh: Option<Refresh>)
        ensures
            match result {
                Ok(_) => acknowledged(*old(self), *final(self),
                    Pending { delete_group: false, groups: true, ..old(self).pending },
                    "group deleted successfully"@) && refresh == Some(Refresh::Groups),
                Err(e) => refused(*old(self), *final(self), e) && refresh is None,
            },
    {
        if self.acknowledge(result, "group deleted successfully") {
            self.pending.delete_group = false;
            self.pending.groups = true;
            Some(Refresh::Groups)
        } else {
            None
        }
    }

    /// The membership changes of a saved group answered so far (`None` for a
    /// change not answered yet). The first failure, in order, becomes the
    /// error and ends the wait for the others; when all succeeded, the info
    /// tells so and the groups are fetched again; otherwise nothing changes.
    pub fn on_group_save_progress(&mut self, progress: Vec<Option<Result<(), String>>>) -> (refresh: Option<Refresh>)
        ensures
            match first_failure(progress@) {
                Some(e) => *final(self) == (AppModel {
                    current_error: Some(AppError::InternalError(e)),
                    current_info: None,
                    pending: Pending { save_group: false, ..old(self).pending },
                    ..*old(self)
                }) && refresh is None,
                None => if all_succeeded(progress@) {
                    acknowledged(*old(self), *final(self),
                        Pending { save_group: false, groups: true, ..old(self).pending },
                        "group updated successfully"@) && refresh == Some(Refresh::Groups)
                } else {
                    *final(self) == *old(self) && refresh is None
                },
            },
    {
        let ghost all = progress@;
        let mut rest = progress;
        let n = rest.len();
        let mut i: usize = 0;
        let mut all_ok = true;
        assert(rest@ =~= all.skip(0));
        while i < n
            invariant
                n == all.len(),
                i <= n,
                rest@ == all.skip(i as int),
                first_failure(all) == first_failure(all.skip(i as int)),
                all_ok == forall|j: int| 0 <= j < i ==> (#[trigger] all[j]) matches Some(Ok(_)),
                *self == *old(self),
                all == progress@,
            decreases n - i,
        {
            let p = rest.remove(0);
            assert(p == all[i as int]);
            assert(all.skip(i as int)[0] == p);
            assert(all.skip(i as int).drop_first() =~= all.skip(i + 1));
            assert(rest@ =~= all.skip(i + 1));
            match p {
                Some(Err(e)) => {
                    self.current_error = Some(AppError::InternalError(e));
                    self.current_info = None;
                    self.pending.save_group = false;
                    return None;
                },
                Some(Ok(_)) => {},
                None => {
                    all_ok = false;
                },
            }
            i = i + 1;
        }
        assert(all.skip(i as int).len() == 0);
        if all_ok {
            self.pending.save_group = false;
            self.pending.groups = true;
            self.acknowledge(Ok(()), "group updated successfully");
            Some(Refresh::Groups)
        } else {
            None
        }
    }

    /// The user picks a directory in the list: it becomes the current
    /// directory, shown for editing, with its quota in mebibytes in the quota
    /// field; the current group, messages and disk usage are cleared. A
    /// directory whose name breaks the naming rule cannot be picked: for it
    /// nothing changes.
    pub fn select_directory(&mut self, dir: Directory)
        ensures
            !dir.valid ==> *final(self) == *old(self),
            dir.valid ==> *final(self) == (AppModel {
                active_action: Action::DirectoryEdit,
                current_directory: Some(dir),
                edited_directory_quota: final(self).edited_directory_quota,
                edited_directory_quota_unit: QuotaUnit::Megabyte,
                current_group: None,
                current_error: None,
                current_info: None,
                du: None,
                ..*old(self)
            }),
            dir.valid ==> final(self).edited_directory_quota@ == initial_quota_text(dir.quota),
    {
        if !dir.valid {
            return;
        }
        self.edited_directory_quota = initial_quota_field(dir.quota);
        self.active_action = Action::DirectoryEdit;
        self.current_directory = Some(dir);
        self.edited_directory_quota_unit = QuotaUnit::Megabyte;
        self.current_group = None;
        self.current_error = None;
        self.current_info = None;
        self.du = None;
    }

    /// The user picks a group in the list: it becomes the current group,
    /// shown for editing; the current directory, messages and disk usage are
    /// cleared.
    pub fn select_group(&mut self, group: Group)
        ensures
            *final(self) == (AppModel {
                active_action: Action::GroupEdit,
                current_group: Some(group),
                current_directory: None,
                current_error: None,
                current_info: None,
                du: None,
                ..*old(self)
            }),
    {
        self.active_action = Action::GroupEdit;
        self.current_group = Some(group);
        self.current_directory = None;
        self.current_error = None;
        self.current_info = None;
        self.du = None;
    }

    /// The user opens the directory creation form: nothing is selected any
    /// more and the name field is empty.
    pub fn start_create_directory(&mut self)
        ensures
            *final(self) == (AppModel {
                active_action: Action::DirectoryCreate,
                current_directory: None,
                current_group: None,
                du: None,
                create_directory_name: final(self).create_directory_name,
                ..*old(self)
            }),
            final(self).create_directory_name@.len() == 0,
    {
        self.active_action = Action::DirectoryCreate;
        self.current_directory = None;
        self.current_group = None;
        self.du = None;
        self.create_directory_name = String::new();
    }

    /// The user opens the group creation form: nothing is selected any more
    /// and the name and description fields are empty.
    pub fn start_create_group(&mut self)
        ensures
            *final(self) == (AppModel {
                active_action: Action::GroupCreate,
                current_directory: None,
                current_group: None,
                du: None,
                create_group_name: final(self).create_group_name,
                create_group_description: final(self).create_group_description,
                ..*old(self)
            }),
            final(self).create_group_name@.len() == 0,
            final(self).create_group_description@.len() == 0,
    {
        self.active_action = Action::GroupCreate;
        self.current_directory = None;
        self.current_group = None;
        self.du = None;
        self.create_group_name = String::new();
        self.create_group_description = String::new();
    }

    /// Shows or hides the directory list.
    pub fn toggle_directory_list(&mut self)
        ensures
            *final(self) == (AppModel { show_directory_list: !old(self).show_directory_list, ..*old(self) }),
    {
        self.show_directory_list = !self.show_directory_list;
    }

    /// Shows or hides the group list.
    pub fn toggle_group_list(&mut self)
        ensures
            *final(self) == (AppModel { show_group_list: !old(self).show_group_list, ..*old(self) }),
    {
        self.show_group_list = !self.show_group_list;
    }

    /// The user opens the access control list of the current directory for
    /// editing.
    pub fn start_edit_acl(&mut self)
        ensures
            *final(self) == (AppModel { active_action: Action::DirectoryEditAcl, ..*old(self) }),
    {
        self.active_action = Action::DirectoryEditAcl;
    }

    /// The user opens the quota form of the current directory.
    pub fn start_edit_quota(&mut self)
        ensures
            *final(self) == (AppModel { active_action: Action::DirectoryEditQuota, ..*old(self) }),
    {
        self.active_action = Action::DirectoryEditQuota;
    }

    /// The user opens the user search of the access control list; the
    /// previous results are dropped.
    pub fn start_add_acl_user(&mut self)
        ensures
            *final(self) == (AppModel {
                active_action: Action::DirectoryEditAclAddUser,
                users: None,
                ..*old(self)
            }),
    {
        self.active_action = Action::DirectoryEditAclAddUser;
        self.users = None;
    }

    /// The user opens the group list of the access control list.
    pub fn start_add_acl_group(&mut self)
        ensures
            *final(self) == (AppModel { active_action: Action::DirectoryEditAclAddGroup, ..*old(self) }),
    {
        self.active_action = Action::DirectoryEditAclAddGroup;
    }

    /// The user is done adding users: back to editing the access control
    /// list.
    pub fn finish_add_acl_user(&mut self)
        ensures
            *final(self) == (AppModel { active_action: Action::DirectoryEditAcl, ..*old(self) }),
    {
        self.active_action = Action::DirectoryEditAcl;
    }

    /// The user opens the renaming form of the current directory; it is
    /// offered only for a directory whose name starts with the administrator
    /// restriction, and for another nothing changes.
    pub fn start_rename_directory(&mut self)
        requires
            old(self).current_directory is Some,
        ensures
            if may_rename(old(self).current_directory->0.name@, old(self).current_admin_restriction) {
                *final(self) == (AppModel { active_action: Action::DirectoryEditRename, ..*old(self) })
            } else {
                *final(self) == *old(self)
            },
    {
        let offered = match &self.current_directory {
            Some(d) => renamable(d.name.as_str(), &self.current_admin_restriction),
            None => false,
        };
        if offered {
            self.active_action = Action::DirectoryEditRename;
        }
    }

    /// The user asks to delete the current group: the confirmation shows.
    pub fn ask_delete_group(&mut self)
        ensures
            *final(self) == (AppModel { active_action: Action::GroupEditDeleteConfirm, ..*old(self) }),
    {
        self.active_action = Action::GroupEditDeleteConfirm;
    }

    /// The user opens the user search of the member form.
    pub fn start_add_member(&mut self)
        ensures
            *final(self) == (AppModel { active_action: Action::GroupEditAddUser, ..*old(self) }),
    {
        self.active_action = Action::GroupEditAddUser;
    }

    /// The user is done searching users: back to editing the members.
    pub fn finish_add_member(&mut self)
        ensures
            *final(self) == (AppModel { active_action: Action::GroupEditUsers, ..*old(self) }),
    {
        self.active_action = Action::GroupEditUsers;
    }

    /// The user reloads the directory list: the call starts.
    pub fn reload_directories(&mut self)
        ensures
            *final(self) == (AppModel { pending: Pending { directories: true, ..old(self).pending }, ..*old(self) }),
    {
        self.pending.directories = true;
    }

    /// The user reloads the group list: the call starts.
    pub fn reload_groups(&mut self)
        ensures
            *final(self) == (AppModel { pending: Pending { groups: true, ..old(self).pending }, ..*old(self) }),
    {
        self.pending.groups = true;
    }

    /// The user picks a theme: it becomes the active theme.
    pub fn select_theme(&mut self, theme: Theme)
        ensures
            *final(self) == (AppModel {
                state: ApplicationState { active_theme: theme, ..old(self).state },
                ..*old(self)
            }),
    {
        self.state.active_theme = theme;
    }

    /// The user deletes the current directory. Deleting is offered only for a
    /// directory whose name starts with the administrator restriction: then
    /// the info tells so and the directory named is to be deleted; for
    /// another nothing changes and nothing is sent.
    pub fn begin_delete_directory(&mut self) -> (r: Option<CreateDirectory>)
        requires
            old(self).current_directory is Some,
        ensures
            if may_rename(old(self).current_directory->0.name@, old(self).current_admin_restriction) {
                &&& *final(self) == (AppModel {
                    is_working: true,
                    current_info: final(self).current_info,
                    pending: Pending { delete_directory: true, ..old(self).pending },
                    ..*old(self)
                })
                &&& final(self).current_info matches Some(s)
                    && s@ == "deleting directory "@ + old(self).current_directory->0.name@
                &&& r matches Some(d) && d.name == old(self).current_directory->0.name
            } else {
                *final(self) == *old(self) && r is None
            },
    {
        let name = match &self.current_directory {
            Some(d) => {
                if !renamable(d.name.as_str(), &self.current_admin_restriction) {
                    return None;
                }
                d.name.clone()
            },
            None => { return None; },
        };
        self.current_info = Some(joined("deleting directory ", name.as_str()));
        self.is_working = true;
        self.pending.delete_directory = true;
        Some(CreateDirectory { name })
    }

    /// The user renames the current directory to the name typed in the
    /// form. Renaming is offered only for a directory whose name starts with
    /// the administrator restriction: then the info tells so, the renaming is
    /// to be made and the name field is emptied; for another nothing changes
    /// and nothing is sent.
    pub fn begin_rename_directory(&mut self) -> (r: Option<RenameDirectory>)
        requires
            old(self).current_directory is Some,
        ensures
            if may_rename(old(self).current_directory->0.name@, old(self).current_admin_restriction) {
                &&& *final(self) == (AppModel {
                    is_working: true,
                    current_info: final(self).current_info,
                    pending: Pending { rename_directory: true, ..old(self).pending },
                    create_directory_name: final(self).create_directory_name,
                    ..*old(self)
                })
                &&& final(self).current_info matches Some(s)
                    && s@ == "renaming directory "@ + old(self).create_directory_name@
                &&& final(self).create_directory_name@.len() == 0
                &&& r matches Some(d) && d.name == old(self).current_directory->0.name
                    && d.new_name == old(self).create_directory_name
            } else {
                *final(self) == *old(self) && r is None
            },
    {
        let name = match &self.current_directory {
            Some(d) => {
                if !renamable(d.name.as_str(), &self.current_admin_restriction) {
                    return None;
                }
                d.name.clone()
            },
            None => { return None; },
        };
        self.current_info = Some(joined("renaming directory ", self.create_directory_name.as_str()));
        self.is_working = true;
        self.pending.rename_directory = true;
        let new_name = self.create_directory_name.clone();
        self.create_directory_name = String::new();
        Some(RenameDirectory { name, new_name })
    }

    /// Deleting a directory answered: on success the info tells so and the
    /// directories are fetched again; a failure becomes the error.
    pub fn on_directory_deleted(&mut self, result: Result<(), String>) -> (refresh: Option<Refresh>)
        ensures
            match result {
                Ok(_) => acknowledged(*old(self), *final(self),
                    Pending { delete_directory: false, directories: true, ..old(self).pending },
                    "directory deleted successfully"@) && refresh == Some(Refresh::Directories),
                Err(e) => refused(*old(self), *final(self), e) && refresh is None,
            },
    {
        if self.acknowledge(result, "directory deleted successfully") {
            self.pending.delete_directory = false;
            self.pending.directories = true;
            Some(Refresh::Directories)
        } else {
            None
        }
    }

    /// Renaming a directory answered: on success the info tells so and the
    /// directories are fetched again; a failure becomes the error.
    pub fn on_directory_renamed(&mut self, result: Result<(), String>) -> (refresh: Option<Refresh>)
        ensures
            match result {
                Ok(_) => acknowledged(*old(self), *final(self),
                    Pending { rename_directory: false, directories: true, ..old(self).pending },
                    "directory renamed successfully"@) && refresh == Some(Refresh::Directories),
                Err(e) => refused(*old(self), *final(self), e) && refresh is None,
            },
    {
        if self.acknowledge(result, "directory renamed successfully") {
            self.pending.rename_directory = false;
            self.pending.directories = true;
            Some(Refresh::Directories)
        } else {
            None
        }
    }

    /// The user asks for the disk usage report: the call starts.
    pub fn request_disk_usage(&mut self)
        ensures
            *final(self) == (AppModel {
                is_working: true,
                pending: Pending { du: true, ..old(self).pending },
                ..*old(self)
            }),
    {
        self.is_working = true;
        self.pending.du = true;
    }

    /// The user searches users: the search for the text typed starts; the
    /// text is returned.
    pub fn search_users(&mut self) -> (query: String)
        ensures
            *final(self) == (AppModel {
                is_working: true,
                pending: Pending { users: true, ..old(self).pending },
                ..*old(self)
            }),
            query == old(self).user_search,
    {
        self.is_working = true;
        self.pending.users = true;
        self.user_search.clone()
    }

    /// The user confirms the creation form of a group: the group (named by
    /// the typed name, without members or owner) is to be created, the info
    /// tells so, and the form is emptied.
    pub fn begin_create_group(&mut self) -> (g: Group)
        ensures
            *final(self) == (AppModel {
                is_working: true,
                current_info: final(self).current_info,
                pending: Pending { create_group: true, ..old(self).pending },
                create_group_name: final(self).create_group_name,
                create_group_description: final(self).create_group_description,
                ..*old(self)
            }),
            final(self).current_info matches Some(s) && s@ == "creating group "@ + old(self).create_group_name@,
            final(self).create_group_name@.len() == 0,
            final(self).create_group_description@.len() == 0,
            g == (Group {
                cn: old(self).create_group_name,
                description: old(self).create_group_description,
                owner: None,
                member: None,
            }),
    {
        self.current_info = Some(joined("creating group ", self.create_group_name.as_str()));
        let g = Group {
            cn: self.create_group_name.clone(),
            description: self.create_group_description.clone(),
            owner: None,
            member: None,
        };
        self.is_working = true;
        self.pending.create_group = true;
        self.create_group_name = String::new();
        self.create_group_description = String::new();
        g
    }

    /// The user confirms the creation form of a directory: the directory is
    /// to be created, the info tells so, and the form is emptied.
    pub fn begin_create_directory(&mut self) -> (d: CreateDirectory)
        ensures
            *final(self) == (AppModel {
                is_working: true,
                current_info: final(self).current_info,
                pending: Pending { create_directory: true, ..old(self).pending },
                create_directory_name: final(self).create_directory_name,
                ..*old(self)
            }),
            final(self).current_info matches Some(s) && s@ == "creating directory "@ + old(self).create_directory_name@,
            final(self).create_directory_name@.len() == 0,
            d.name == old(self).create_directory_name,
    {
        self.current_info = Some(joined("creating directory ", self.create_directory_name.as_str()));
        let d = CreateDirectory { name: self.create_directory_name.clone() };
        self.is_working = true;
        self.pending.create_directory = true;
        self.create_directory_name = String::new();
        d
    }

    /// The user saves the access control list of the current directory: the
    /// list is to be sent, and the info tells so.
    pub fn begin_save_acl(&mut self) -> (r: SetAcl)
        requires
            old(self).current_directory is Some,
        ensures
            *final(self) == (AppModel {
                is_working: true,
                current_info: final(self).current_info,
                pending: Pending { save_acl: true, ..old(self).pending },
                ..*old(self)
            }),
            final(self).current_info matches Some(s) && s@ == "saving acl for "@ + old(self).current_directory->0.name@,
            r.name == old(self).current_directory->0.name,
            r.acls@ == old(self).current_directory->0.acls@,
    {
        let (name, acls) = match &self.current_directory {
            Some(d) => (d.name.clone(), copy_entries(&d.acls)),
            None => { assert(false); (String::new(), Vec::new()) },
        };
        self.current_info = Some(joined("saving acl for ", name.as_str()));
        self.is_working = true;
        self.pending.save_acl = true;
        SetAcl { name, acls }
    }

    /// The user saves the quota form of the current directory: the info tells
    /// so; the typed number in the chosen unit is to be sent, or, when the
    /// number cannot be read, the reason becomes the error.
    pub fn begin_save_quota(&mut self) -> (r: Option<SetQuota>)
        requires
            old(self).current_directory is Some,
            parsed_u64(old(self).edited_directory_quota@) matches Ok(v) ==> v * unit_bytes(
                old(self).edited_directory_quota_unit,
            ) <= u64::MAX,
        ensures
            final(self).current_info matches Some(s) && s@ == "saving quota for "@ + old(self).current_directory->0.name@,
            match parsed_u64(old(self).edited_directory_quota@) {
                Ok(v) => *final(self) == (AppModel {
                    is_working: true,
                    current_info: final(self).current_info,
                    pending: Pending { save_quota: true, ..old(self).pending },
                    ..*old(self)
                }) && (r matches Some(q) && q.name == old(self).current_directory->0.name
                    && q.quota == v * unit_bytes(old(self).edited_directory_quota_unit)),
                Err(e) => *final(self) == (AppModel {
                    current_info: final(self).current_info,
                    current_error: final(self).current_error,
                    ..*old(self)
                }) && (final(self).current_error matches Some(AppError::InternalError(m))
                    && m@ == int_parse_error_text(e)) && r is None,
            },
    {
        let name = match &self.current_directory {
            Some(d) => d.name.clone(),
            None => { assert(false); String::new() },
        };
        self.current_info = Some(joined("saving quota for ", name.as_str()));
        match quota_request(&name, self.edited_directory_quota.as_str(), self.edited_directory_quota_unit) {
            Ok(q) => {
                self.is_working = true;
                self.pending.save_quota = true;
                Some(q)
            },
            Err(e) => {
                self.current_error = Some(e);
                None
            },
        }
    }

    /// The user starts editing the members of the current group: the group
    /// as it is now is kept to compare with when saving.
    pub fn start_edit_members(&mut self)
        requires
            old(self).current_group is Some,
        ensures
            *final(self) == (AppModel {
                active_action: Action::GroupEditUsers,
                current_group_backup: final(self).current_group_backup,
                ..*old(self)
            }),
            final(self).current_group_backup matches Some(b) && same_group(b, old(self).current_group->0),
    {
        let backup = copy_group(self.current_group.as_ref().unwrap());
        self.current_group_backup = Some(backup);
        self.active_action = Action::GroupEditUsers;
    }

    /// The user removes `member` from the current group's members.
    pub fn remove_member(&mut self, member: &str)
        requires
            old(self).current_group is Some,
        ensures
            *final(self) == (AppModel { current_group: final(self).current_group, ..*old(self) }),
            final(self).current_group matches Some(g) && old(self).current_group matches Some(o) && g.cn == o.cn
                && g.description == o.description && g.owner == o.owner
                && match o.member {
                    Some(m) => g.member matches Some(n) && texts_view(n@) == without_name(texts_view(m@), member@),
                    None => g.member is None,
                },
    {
        match &mut self.current_group {
            Some(g) => {
                match &mut g.member {
                    Some(m) => {
                        let kept = names_without(m, member);
                        *m = kept;
                    },
                    None => {},
                }
            },
            None => {},
        }
    }

    /// The user adds the user `id` to the access control list of the current
    /// directory: a full-permission entry is added unless the list has one
    /// for that user already; when added, the search is cleared.
    pub fn add_acl_user(&mut self, id: &String) -> (added: bool)
        requires
            old(self).current_directory matches Some(d) && users_named(d.acls@),
        ensures
            old(self).current_directory matches Some(o) && added == !has_user_entry(o.acls@, id@),
            final(self).current_directory matches Some(d) && old(self).current_directory matches Some(o)
                && d == (Directory { acls: d.acls, ..o })
                && if added { d.acls@ == o.acls@.push(new_user_entry(*id)) } else { d.acls@ == o.acls@ }
                && d.acls@ == with_user_entry(o.acls@, *id),
            added ==> *final(self) == (AppModel {
                current_directory: final(self).current_directory,
                user_search: final(self).user_search,
                users: None,
                ..*old(self)
            }) && final(self).user_search@.len() == 0,
            !added ==> *final(self) == (AppModel { current_directory: final(self).current_directory, ..*old(self) }),
    {
        let added = match &mut self.current_directory {
            Some(d) => add_user_entry(&mut d.acls, id),
            None => false,
        };
        if added {
            self.user_search = String::new();
            self.users = None;
        }
        added
    }

    /// The user adds the group `cn` to the access control list of the current
    /// directory: a full-permission entry is added unless the list has one
    /// for that group already.
    pub fn add_acl_group(&mut self, cn: &String) -> (added: bool)
        requires
            old(self).current_directory matches Some(d) && groups_named(d.acls@),
        ensures
            old(self).current_directory matches Some(o) && added == !has_group_entry(o.acls@, cn@),
            *final(self) == (AppModel { current_directory: final(self).current_directory, ..*old(self) }),
            final(self).current_directory matches Some(d) && old(self).current_directory matches Some(o)
                && d == (Directory { acls: d.acls, ..o })
                && if added { d.acls@ == o.acls@.push(new_group_entry(*cn)) } else { d.acls@ == o.acls@ }
                && d.acls@ == with_group_entry(o.acls@, *cn),
    {
        match &mut self.current_directory {
            Some(d) => add_group_entry(&mut d.acls, cn),
            None => false,
        }
    }

    /// The user deletes the entries of the subject `cn` from the access
    /// control list of the current directory. The administrator's entries
    /// cannot be deleted: for the administrator's name nothing changes.
    pub fn remove_acl(&mut self, cn: &str)
        requires
            old(self).current_directory is Some,
        ensures
            *final(self) == (AppModel { current_directory: final(self).current_directory, ..*old(self) }),
            final(self).current_directory matches Some(d) && old(self).current_directory matches Some(o)
                && d == (Directory { acls: d.acls, ..o })
                && d.acls@ == removal_result(o.acls@, cn@, old(self).admin),
            final(self).current_directory matches Some(d) && old(self).current_directory matches Some(o)
                && (old(self).admin matches Some(adm) ==> forall|e: AclEntry|
                    o.acls@.contains(e) && names_subject(e, adm@) ==> #[trigger] d.acls@.contains(e)),
    {
        let protected = match &self.admin {
            Some(a) => same_text(a.as_str(), cn),
            None => false,
        };
        if !protected {
            match &mut self.current_directory {
                Some(d) => {
                    let ghost before = d.acls@;
                    remove_subject(&mut d.acls, cn);
                    proof { law_remove_subject(before, cn@); }
                },
                None => {},
            }
        }
    }

    /// The user flips the read-only box of the subject `cn` in the access
    /// control list of the current directory: the write permission of its
    /// entries flips. The administrator's entries cannot be changed: for the
    /// administrator's name nothing changes.
    pub fn toggle_acl_read_only(&mut self, cn: &str)
        requires
            old(self).current_directory matches Some(d) && all_named(d.acls@),
        ensures
            *final(self) == (AppModel { current_directory: final(self).current_directory, ..*old(self) }),
            final(self).current_directory matches Some(d) && old(self).current_directory matches Some(o)
                && d == (Directory { acls: d.acls, ..o }) && d.acls@.len() == o.acls@.len()
                && d.acls@ == toggle_result(o.acls@, cn@, old(self).admin)
                && forall|i: int| 0 <= i < o.acls@.len() ==> {
                    let (a, b) = (#[trigger] o.acls@[i], d.acls@[i]);
                    if names_subject(a, cn@) && !is_admin_name(old(self).admin, cn@) {
                        b == (AclEntry { perm: write_toggled(a.perm), ..a })
                    } else {
                        b == a
                    }
                },
            final(self).current_directory matches Some(d) && old(self).current_directory matches Some(o)
                && (old(self).admin matches Some(adm) ==> forall|i: int|
                    0 <= i < o.acls@.len() && names_subject(#[trigger] o.acls@[i], adm@) ==> d.acls@[i] == o.acls@[i]),
    {
        let protected = match &self.admin {
            Some(a) => same_text(a.as_str(), cn),
            None => false,
        };
        if !protected {
            match &mut self.current_directory {
                Some(d) => toggle_read_only_of(&mut d.acls, cn),
                None => {},
            }
        }
    }

    /// The user saves the edited members of the current group: the info
    /// tells so and the membership changes against the group as it was are
    /// to be made (see `plan_member_changes`).
    pub fn begin_save_group(&mut self) -> (changes: Vec<MemberChange>)
        requires
            old(self).current_group is Some,
            old(self).current_group_backup is Some,
        ensures
            *final(self) == (AppModel {
                is_working: true,
                current_info: final(self).current_info,
                pending: Pending { save_group: true, ..old(self).pending },
                ..*old(self)
            }),
            final(self).current_info matches Some(s) && s@ == "saving group "@ + old(self).current_group->0.cn@,
            changes@.map_values(|c: MemberChange| change_view(c)) == planned_changes(
                old(self).current_group_backup->0,
                old(self).current_group->0,
            ),
    {
        let changes = match (&self.current_group_backup, &self.current_group) {
            (Some(saved), Some(edited)) => {
                self.current_info = Some(joined("saving group ", edited.cn.as_str()));
                plan_member_changes(saved, edited)
            },
            _ => { assert(false); Vec::new() },
        };
        self.is_working = true;
        self.pending.save_group = true;
        changes
    }

    /// The user confirms the deletion of the current group: the group named
    /// is to be deleted and the home page shows.
    pub fn confirm_delete_group(&mut self) -> (cn: String)
        requires
            old(self).current_group is Some,
        ensures
            *final(self) == (AppModel {
                is_working: true,
                active_action: Action::Home,
                pending: Pending { delete_group: true, ..old(self).pending },
                ..*old(self)
            }),
            cn == old(self).current_group->0.cn,
    {
        let cn = match &self.current_group {
            Some(g) => g.cn.clone(),
            None => { assert(false); String::new() },
        };
        self.is_working = true;
        self.pending.delete_group = true;
        self.active_action = Action::Home;
        cn
    }

    /// The directory list arrived: it is kept as the interface shows it (see
    /// `prepared_directories`), and the display names not known and not yet
    /// asked for are asked for (returned, once each); a failure becomes the
    /// current error.
    pub fn on_directories(&mut self, result: Result<Option<Vec<Directory>>, String>) -> (fetches: Vec<String>)
        requires
            result matches Ok(Some(ds)) ==> directories_named(views(ds@)),
        ensures
            match result {
                Ok(ds) => *final(self) == (AppModel {
                    is_working: false,
                    directories: final(self).directories,
                    display_requests: final(self).display_requests,
                    pending: Pending { directories: false, ..old(self).pending },
                    ..*old(self)
                }) && match ds {
                    Some(v) => {
                        &&& final(self).directories matches Some(w)
                            && views(w@) == prepared_directories(views(v@), old(self).user_display_cache@)
                        &&& final(self).display_requests@.dom() == old(self).display_requests@.dom()
                            + unknown_in_directories(views(v@), old(self).user_display_cache@)
                        &&& texts_view(fetches@).no_duplicates()
                        &&& texts_view(fetches@).to_set() == final(self).display_requests@.dom()
                            - old(self).display_requests@.dom()
                    },
                    None => final(self).directories is None && fetches@.len() == 0
                        && final(self).display_requests == old(self).display_requests,
                },
                Err(e) => *final(self) == (AppModel {
                    is_working: false,
                    current_error: Some(AppError::InternalError(e)),
                    ..*old(self)
                }) && fetches@.len() == 0,
            },
    {
        self.is_working = false;
        let mut fetches: Vec<String> = Vec::new();
        match result {
            Ok(ds) => {
                match ds {
                    Some(v) => {
                        assert(texts_view(fetches@) =~= Seq::empty());
                        let prepared = prepare_directories(v, &self.user_display_cache, &mut self.display_requests, &mut fetches);
                        self.directories = Some(prepared);
                    },
                    None => {
                        self.directories = None;
                    },
                }
                self.pending.directories = false;
            },
            Err(e) => {
                self.current_error = Some(AppError::InternalError(e));
            },
        }
        fetches
    }
}

/// The names of `s` other than `x`, in their order.
pub open spec fn without_name(s: Seq<Seq<char>>, x: Seq<char>) -> Seq<Seq<char>>
    decreases s.len(),
{
    if s.len() == 0 {
        s
    } else if s.last() == x {
        without_name(s.drop_last(), x)
    } else {
        without_name(s.drop_last(), x).push(s.last())
    }
}

/// The names of `v` other than `x`, in their order.
pub fn names_without(v: &Vec<String>, x: &str) -> (r: Vec<String>)
    ensures
        texts_view(r@) == without_name(texts_view(v@), x@),
{
    let ghost all = texts_view(v@);
    let mut r: Vec<String> = Vec::new();
    for i in 0..v.len()
        invariant
            all == texts_view(v@),
            texts_view(r@) == without_name(all.take(i as int), x@),
    {
        let ghost p = all.take(i + 1);
        assert(p.drop_last() =~= all.take(i as int));
        assert(p.last() == v@[i as int]@);
        if !same_text(v[i].as_str(), x) {
            let ghost before = r@;
            r.push(v[i].clone());
            assert(texts_view(r@) =~= texts_view(before).push(v@[i as int]@));
        }
    }
    assert(all.take(v.len() as int) =~= all);
    r
}

/// A copy of a group.
pub fn copy_group(g: &Group) -> (r: Group)
    ensures
        same_group(r, *g),
{
    Group {
        cn: g.cn.clone(),
        description: g.description.clone(),
        member: match &g.member {
            Some(m) => Some(crate::text::copy_texts(m)),
            None => None,
        },
        owner: crate::text::copy_opt_text(&g.owner),
    }
}

} // verus!
