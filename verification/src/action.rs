//! The action the user is carrying out, which decides what the central panel
//! shows.

use vstd::prelude::*;

use crate::text::{has_prefix, starts_with};

verus! {

/// The action in progress.
#[derive(Clone, Copy, Debug, PartialEq, Eq, Structural)]
pub enum Action {
    Home,
    DiskUsage,
    DirectoryEdit,
    DirectoryCreate,
    DirectoryEditAcl,
    DirectoryEditQuota,
    DirectoryEditAclAddUser,
    DirectoryEditAclAddGroup,
    DirectoryEditRename,
    GroupEdit,
    GroupCreate,
    GroupEditDeleteConfirm,
    GroupEditAddUser,
    GroupEditUsers,
}

/// The name of an action.
pub open spec fn action_text(a: Action) -> Seq<char> {
    match a {
        Action::Home => "home"@,
        Action::DirectoryCreate => "directory_create"@,
        Action::DirectoryEdit => "directory_edit"@,
        Action::DirectoryEditAcl => "directory_edit_acl"@,
        Action::DirectoryEditQuota => "directory_edit_quota"@,
        Action::DirectoryEditAclAddUser => "directory_edit_acl_add_user"@,
        Action::DirectoryEditAclAddGroup => "directory_edit_acl_add_group"@,
        Action::DirectoryEditRename => "directory_edit_rename"@,
        Action::GroupEdit => "group_edit"@,
        Action::GroupCreate => "group_create"@,
        Action::GroupEditDeleteConfirm => "group_edit_delete_confirm"@,
        Action::GroupEditAddUser => "group_edit_add_user"@,
        Action::GroupEditUsers => "group_edit_users"@,
        Action::DiskUsage => "disk_usage"@,
    }
}

/// Whether the action shows a directory: the editing actions of a directory.
pub open spec fn shows_directory(a: Action) -> bool {
    a == Action::DirectoryEdit || a == Action::DirectoryEditAcl || a == Action::DirectoryEditQuota
        || a == Action::DirectoryEditAclAddUser || a == Action::DirectoryEditAclAddGroup
        || a == Action::DirectoryEditRename
}

/// Whether the action shows a group: the editing actions of a group.
pub open spec fn shows_group(a: Action) -> bool {
    a == Action::GroupEdit || a == Action::GroupEditDeleteConfirm || a == Action::GroupEditAddUser
        || a == Action::GroupEditUsers
}

/// What the central panel shows for an action.
#[derive(Clone, Copy, Debug, PartialEq, Eq, Structural)]
pub struct CentralSections {
    pub disk_usage: bool,
    pub home: bool,
    pub create_directory: bool,
    pub create_group: bool,
    pub directory: bool,
    pub group: bool,
}

impl Action {
    /// The name of the action (what `to_string` gives).
    pub fn name(&self) -> (r: &'static str)
        ensures
            r@ == action_text(*self),
    {
        match self {
            Action::Home => "home",
            Action::DirectoryCreate => "directory_create",
            Action::DirectoryEdit => "directory_edit",
            Action::DirectoryEditAcl => "directory_edit_acl",
            Action::DirectoryEditQuota => "directory_edit_quota",
            Action::DirectoryEditAclAddUser => "directory_edit_acl_add_user",
            Action::DirectoryEditAclAddGroup => "directory_edit_acl_add_group",
            Action::DirectoryEditRename => "directory_edit_rename",
            Action::GroupEdit => "group_edit",
            Action::GroupCreate => "group_create",
            Action::GroupEditDeleteConfirm => "group_edit_delete_confirm",
            Action::GroupEditAddUser => "group_edit_add_user",
            Action::GroupEditUsers => "group_edit_users",
            Action::DiskUsage => "disk_usage",
        }
    }

    /// Whether the action's name starts with `directory_edit`, that is,
    /// whether it shows a directory.
    pub fn shows_directory(&self) -> (r: bool)
        ensures
            r == has_prefix(action_text(*self), "directory_edit"@),
            r == shows_directory(*self),
    {
        proof {
            reveal_strlit("directory_edit");
            reveal_strlit("home");
            reveal_strlit("directory_create");
            reveal_strlit("directory_edit_acl");
            reveal_strlit("directory_edit_quota");
            reveal_strlit("directory_edit_acl_add_user");
            reveal_strlit("directory_edit_acl_add_group");
            reveal_strlit("directory_edit_rename");
            reveal_strlit("group_edit");
            reveal_strlit("group_create");
            reveal_strlit("group_edit_delete_confirm");
            reveal_strlit("group_edit_add_user");
            reveal_strlit("group_edit_users");
            reveal_strlit("disk_usage");
            let p = "directory_edit"@;
            let t = action_text(*self);
            if !shows_directory(*self) && t.len() >= p.len() {
                assert(t.subrange(0, p.len() as int) != p) by {
                    if *self == Action::DirectoryCreate {
                        assert(t.subrange(0, p.len() as int)[10] != p[10]);
                    } else {
                        assert(t.subrange(0, p.len() as int)[0] != p[0]);
                    }
                }
            }
            if shows_directory(*self) {
                assert(t.subrange(0, p.len() as int) =~= p);
            }
        }
        starts_with(self.name(), "directory_edit")
    }

    /// Whether the action's name starts with `group_edit`, that is, whether
    /// it shows a group.
    pub fn shows_group(&self) -> (r: bool)
        ensures
            r == has_prefix(action_text(*self), "group_edit"@),
            r == shows_group(*self),
    {
        proof {
            reveal_strlit("directory_edit");
            reveal_strlit("home");
            reveal_strlit("directory_create");
            reveal_strlit("directory_edit_acl");
            reveal_strlit("directory_edit_quota");
            reveal_strlit("directory_edit_acl_add_user");
            reveal_strlit("directory_edit_acl_add_group");
            reveal_strlit("directory_edit_rename");
            reveal_strlit("group_edit");
            reveal_strlit("group_create");
            reveal_strlit("group_edit_delete_confirm");
            reveal_strlit("group_edit_add_user");
            reveal_strlit("group_edit_users");
            reveal_strlit("disk_usage");
            let p = "group_edit"@;
            let t = action_text(*self);
            if !shows_group(*self) && t.len() >= p.len() {
                assert(t.subrange(0, p.len() as int) != p) by {
                    if *self == Action::GroupCreate {
                        assert(t.subrange(0, p.len() as int)[6] != p[6]);
                    } else {
                        assert(t.subrange(0, p.len() as int)[0] != p[0]);
                    }
                }
            }
            if shows_group(*self) {
                assert(t.subrange(0, p.len() as int) =~= p);
            }
        }
        starts_with(self.name(), "group_edit")
    }

    /// What the central panel shows for the action.
    pub fn central_sections(&self) -> (r: CentralSections)
        ensures
            r.disk_usage == (*self == Action::DiskUsage),
            r.home == (*self == Action::Home),
            r.create_directory == (*self == Action::DirectoryCreate),
            r.create_group == (*self == Action::GroupCreate),
            r.directory == shows_directory(*self),
            r.group == shows_group(*self),
    {
        CentralSections {
            disk_usage: *self == Action::DiskUsage,
            home: *self == Action::Home,
            create_directory: *self == Action::DirectoryCreate,
            create_group: *self == Action::GroupCreate,
            directory: self.shows_directory(),
            group: self.shows_group(),
        }
    }
}

/// How many of the central panel's sections the action shows.
pub open spec fn shown_sections(a: Action) -> int {
    (if a == Action::DiskUsage { 1int } else { 0int })
        + (if a == Action::Home { 1int } else { 0int })
        + (if a == Action::DirectoryCreate { 1int } else { 0int })
        + (if a == Action::GroupCreate { 1int } else { 0int })
        + (if shows_directory(a) { 1int } else { 0int })
        + (if shows_group(a) { 1int } else { 0int })
}

/// The central panel shows exactly one section whatever the action.
pub proof fn law_one_central_section(a: Action)
    ensures
        shown_sections(a) == 1,
{
}

} // verus!
