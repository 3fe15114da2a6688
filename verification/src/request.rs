//! The calls the client makes to the STORM API: method and address of each.

use vstd::prelude::*;

use crate::text::joined;

verus! {

/// An HTTP method the client uses.
#[derive(Clone, Copy, Debug, PartialEq, Eq, Structural)]
pub enum Method {
    Get,
    Post,
    Patch,
    Delete,
}

impl Method {
    /// The method's name on the wire.
    pub fn name(&self) -> (r: &'static str)
        ensures
            r@ == match *self {
                Method::Get => "GET"@,
                Method::Post => "POST"@,
                Method::Patch => "PATCH"@,
                Method::Delete => "DELETE"@,
            },
    {
        match self {
            Method::Get => "GET",
            Method::Post => "POST",
            Method::Patch => "PATCH",
            Method::Delete => "DELETE",
        }
    }
}

/// A call of the API: its method and address. The body, where there is one,
/// is the JSON form of the value sent.
#[derive(Clone, Debug, PartialEq, Eq)]
pub struct ApiCall {
    pub method: Method,
    pub url: String,
}

/// Saving a directory's access control list.
pub fn save_acl_call(api_url: &str) -> (r: ApiCall)
    ensures
        r.method == Method::Post,
        r.url@ == api_url@ + "/acls"@,
{
    ApiCall { method: Method::Post, url: joined(api_url, "/acls") }
}

/// Listing the root directories.
pub fn directories_call(api_url: &str) -> (r: ApiCall)
    ensures
        r.method == Method::Get,
        r.url@ == api_url@ + "/directories"@,
{
    ApiCall { method: Method::Get, url: joined(api_url, "/directories") }
}

/// Removing a user from a group.
pub fn del_user_from_group_call(api_url: &str) -> (r: ApiCall)
    ensures
        r.method == Method::Delete,
        r.url@ == api_url@ + "/groups/user"@,
{
    ApiCall { method: Method::Delete, url: joined(api_url, "/groups/user") }
}

/// Adding a user to a group.
pub fn add_user_to_group_call(api_url: &str) -> (r: ApiCall)
    ensures
        r.method == Method::Patch,
        r.url@ == api_url@ + "/groups/user"@,
{
    ApiCall { method: Method::Patch, url: joined(api_url, "/groups/user") }
}

/// Creating a group.
pub fn create_group_call(api_url: &str) -> (r: ApiCall)
    ensures
        r.method == Method::Post,
        r.url@ == api_url@ + "/groups"@,
{
    ApiCall { method: Method::Post, url: joined(api_url, "/groups") }
}

/// Listing the groups.
pub fn groups_call(api_url: &str) -> (r: ApiCall)
    ensures
        r.method == Method::Get,
        r.url@ == api_url@ + "/groups"@,
{
    ApiCall { method: Method::Get, url: joined(api_url, "/groups") }
}

/// Saving a directory's quota.
pub fn save_quota_call(api_url: &str) -> (r: ApiCall)
    ensures
        r.method == Method::Post,
        r.url@ == api_url@ + "/quota"@,
{
    ApiCall { method: Method::Post, url: joined(api_url, "/quota") }
}

/// Asking the display name of the user `q`.
pub fn user_display_call(api_url: &str, q: &str) -> (r: ApiCall)
    ensures
        r.method == Method::Get,
        r.url@ == api_url@ + "/userdisplay?q="@ + q@,
{
    let a = joined(api_url, "/userdisplay?q=");
    ApiCall { method: Method::Get, url: joined(a.as_str(), q) }
}

/// Searching users matching `q`.
pub fn users_call(api_url: &str, q: &str) -> (r: ApiCall)
    ensures
        r.method == Method::Get,
        r.url@ == api_url@ + "/users?q="@ + q@,
{
    let a = joined(api_url, "/users?q=");
    ApiCall { method: Method::Get, url: joined(a.as_str(), q) }
}

} // verus!
