//! How the client reads the API's replies: from the status code and the body
//! text of a reply, what each call of the API yields.

use vstd::prelude::*;

use crate::text::{decimal, decimal_string};

verus! {

/// A reply of the API: its status code and its body as text (`None` when the
/// body is not valid UTF-8).
#[derive(Clone, Debug, PartialEq, Eq)]
pub struct HttpReply {
    pub status: u16,
    pub text: Option<String>,
}

/// What a reply yields.
#[derive(Clone, Debug, PartialEq, Eq)]
pub enum ReplyOutcome {
    /// Success without a value (`Ok(())`, or `Ok(None)` for a list).
    Done,
    /// Success with a value to decode from this body text.
    Payload(String),
    /// Success with this text as the value.
    Value(String),
    /// Failure reported by the API: the body text holds its error, whose
    /// message is the failure.
    RemoteError(String),
    /// Failure with this message.
    Failed(String),
}

/// The outcome seen as (tag, text): tag 0 done, 1 payload, 2 value, 3
/// remote error, 4 failure.
pub open spec fn outcome_view(o: ReplyOutcome) -> (int, Seq<char>) {
    match o {
        ReplyOutcome::Done => (0, Seq::empty()),
        ReplyOutcome::Payload(t) => (1, t@),
        ReplyOutcome::Value(t) => (2, t@),
        ReplyOutcome::RemoteError(t) => (3, t@),
        ReplyOutcome::Failed(t) => (4, t@),
    }
}

/// A reply to a call that only acknowledges (saving an access control list,
/// adding or removing a group member, creating a group): status 200 is
/// success; otherwise a body holds the API's error, and no readable body is
/// success.
pub open spec fn acknowledgement(r: HttpReply) -> (int, Seq<char>) {
    if r.status == 200 {
        (0, Seq::empty())
    } else {
        match r.text {
            Some(t) => (3, t@),
            None => (0, Seq::empty()),
        }
    }
}

/// A reply to saving a quota: as an acknowledgement, except that a failure
/// without a readable body fails with the status code.
pub open spec fn quota_acknowledgement(r: HttpReply) -> (int, Seq<char>) {
    if r.status == 200 {
        (0, Seq::empty())
    } else {
        match r.text {
            Some(t) => (3, t@),
            None => (4, decimal(r.status as nat)),
        }
    }
}

/// A reply to listing groups: status 200 gives the list in the body (none
/// without a readable body); otherwise a body holds the API's error, and no
/// readable body gives no list.
pub open spec fn group_listing(r: HttpReply) -> (int, Seq<char>) {
    match r.text {
        Some(t) => if r.status == 200 { (1, t@) } else { (3, t@) },
        None => (0, Seq::empty()),
    }
}

/// A reply to searching users: as a group listing, except that a failure
/// without a readable body fails with the status code.
pub open spec fn user_listing(r: HttpReply) -> (int, Seq<char>) {
    match r.text {
        Some(t) => if r.status == 200 { (1, t@) } else { (3, t@) },
        None => if r.status == 200 { (0, Seq::empty()) } else { (4, decimal(r.status as nat)) },
    }
}

/// A reply to asking a user's display name: status 200 gives the name in the
/// body, and "invalid user" without a readable body; otherwise a body holds
/// the API's error, and no readable body fails with the status code.
pub open spec fn display_name_reply(r: HttpReply) -> (int, Seq<char>) {
    match r.text {
        Some(t) => if r.status == 200 { (1, t@) } else { (3, t@) },
        None => if r.status == 200 { (2, "invalid user"@) } else { (4, decimal(r.status as nat)) },
    }
}

/// A reply to listing directories: whatever the status, a readable body
/// gives the list, and no readable body gives no list.
pub open spec fn directory_listing(r: HttpReply) -> (int, Seq<char>) {
    match r.text {
        Some(t) => (1, t@),
        None => (0, Seq::empty()),
    }
}

fn copy_text(t: &String) -> (r: String)
    ensures
        r == *t,
{
    t.clone()
}

/// Reads a reply to a call that only acknowledges.
pub fn read_acknowledgement(r: &HttpReply) -> (o: ReplyOutcome)
    ensures
        outcome_view(o) == acknowledgement(*r),
{
    if r.status == 200 {
        ReplyOutcome::Done
    } else {
        match &r.text {
            Some(t) => ReplyOutcome::RemoteError(copy_text(t)),
            None => ReplyOutcome::Done,
        }
    }
}

/// Reads a reply to saving a quota.
pub fn read_quota_acknowledgement(r: &HttpReply) -> (o: ReplyOutcome)
    ensures
        outcome_view(o) == quota_acknowledgement(*r),
{
    if r.status == 200 {
        ReplyOutcome::Done
    } else {
        match &r.text {
            Some(t) => ReplyOutcome::RemoteError(copy_text(t)),
            None => ReplyOutcome::Failed(decimal_string(r.status as u64)),
        }
    }
}

/// Reads a reply to listing groups.
pub fn read_group_listing(r: &HttpReply) -> (o: ReplyOutcome)
    ensures
        outcome_view(o) == group_listing(*r),
{
    match &r.text {
        Some(t) => if r.status == 200 {
            ReplyOutcome::Payload(copy_text(t))
        } else {
            ReplyOutcome::RemoteError(copy_text(t))
        },
        None => ReplyOutcome::Done,
    }
}

/// Reads a reply to searching users.
pub fn read_user_listing(r: &HttpReply) -> (o: ReplyOutcome)
    ensures
        outcome_view(o) == user_listing(*r),
{
    match &r.text {
        Some(t) => if r.status == 200 {
            ReplyOutcome::Payload(copy_text(t))
        } else {
            ReplyOutcome::RemoteError(copy_text(t))
        },
        None => if r.status == 200 {
            ReplyOutcome::Done
        } else {
            ReplyOutcome::Failed(decimal_string(r.status as u64))
        },
    }
}

/// Reads a reply to asking a user's display name.
pub fn read_display_name_reply(r: &HttpReply) -> (o: ReplyOutcome)
    ensures
        outcome_view(o) == display_name_reply(*r),
{
    match &r.text {
        Some(t) => if r.status == 200 {
            ReplyOutcome::Payload(copy_text(t))
        } else {
            ReplyOutcome::RemoteError(copy_text(t))
        },
        None => if r.status == 200 {
            ReplyOutcome::Value(String::from_str("invalid user"))
        } else {
            ReplyOutcome::Failed(decimal_string(r.status as u64))
        },
    }
}

/// Reads a reply to listing directories.
pub fn read_directory_listing(r: &HttpReply) -> (o: ReplyOutcome)
    ensures
        outcome_view(o) == directory_listing(*r),
{
    match &r.text {
        Some(t) => ReplyOutcome::Payload(copy_text(t)),
        None => ReplyOutcome::Done,
    }
}

/// A save is acknowledged only by status 200: any other status with a body
/// is the API's error, carried as that body; a reply without a readable body
/// counts as success.
pub proof fn law_acknowledgement_reading(r: HttpReply, o: ReplyOutcome)
    requires
        outcome_view(o) == acknowledgement(r),
    ensures
        r.status == 200 ==> o is Done,
        r.status != 200 ==> match r.text {
            Some(t) => o matches ReplyOutcome::RemoteError(e) && e@ == t@,
            None => o is Done,
        },
{
}

/// A quota is saved only on status 200: any other status is a failure, the
/// API's error from the body, or else the status code in decimal.
pub proof fn law_quota_acknowledgement_reading(r: HttpReply, o: ReplyOutcome)
    requires
        outcome_view(o) == quota_acknowledgement(r),
    ensures
        r.status == 200 ==> o is Done,
        r.status != 200 ==> match r.text {
            Some(t) => o matches ReplyOutcome::RemoteError(e) && e@ == t@,
            None => o matches ReplyOutcome::Failed(m) && m@ == decimal(r.status as nat),
        },
{
}

/// A group list is read from the body of a status 200 reply; with another
/// status the body is the API's error; without a readable body there is no
/// list.
pub proof fn law_group_listing_reading(r: HttpReply, o: ReplyOutcome)
    requires
        outcome_view(o) == group_listing(r),
    ensures
        match r.text {
            Some(t) => if r.status == 200 {
                o matches ReplyOutcome::Payload(p) && p@ == t@
            } else {
                o matches ReplyOutcome::RemoteError(e) && e@ == t@
            },
            None => o is Done,
        },
{
}

/// A user search is read from the body of a status 200 reply; with another
/// status the body is the API's error, or without one the status code is.
pub proof fn law_user_listing_reading(r: HttpReply, o: ReplyOutcome)
    requires
        outcome_view(o) == user_listing(r),
    ensures
        match r.text {
            Some(t) => if r.status == 200 {
                o matches ReplyOutcome::Payload(p) && p@ == t@
            } else {
                o matches ReplyOutcome::RemoteError(e) && e@ == t@
            },
            None => if r.status == 200 {
                o is Done
            } else {
                o matches ReplyOutcome::Failed(m) && m@ == decimal(r.status as nat)
            },
        },
{
}

/// A display name is read from the body of a status 200 reply, and is
/// "invalid user" without one; with another status the body is the API's
/// error, or without one the status code is.
pub proof fn law_display_name_reading(r: HttpReply, o: ReplyOutcome)
    requires
        outcome_view(o) == display_name_reply(r),
    ensures
        match r.text {
            Some(t) => if r.status == 200 {
                o matches ReplyOutcome::Payload(p) && p@ == t@
            } else {
                o matches ReplyOutcome::RemoteError(e) && e@ == t@
            },
            None => if r.status == 200 {
                o matches ReplyOutcome::Value(v) && v@ == "invalid user"@
            } else {
                o matches ReplyOutcome::Failed(m) && m@ == decimal(r.status as nat)
            },
        },
{
}

/// A directory list is read from any readable body, whatever the status;
/// without one there is no list.
pub proof fn law_directory_listing_reading(r: HttpReply, o: ReplyOutcome)
    requires
        outcome_view(o) == directory_listing(r),
    ensures
        match r.text {
            Some(t) => o matches ReplyOutcome::Payload(p) && p@ == t@,
            None => o is Done,
        },
{
}

} // verus!
