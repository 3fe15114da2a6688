use daenerys::acl::{AclEntry, Qualifier};
use daenerys::group::{
    classify_group, group_list_rank, holds_text, plan_member_changes, sort_groups,
    AddDelUserToGroup, Group, GroupKind, MemberChange,
};
use daenerys::pattern::{name_acceptable, quota_text_acceptable, TextPattern};
use daenerys::reply::{
    read_acknowledgement, read_directory_listing, read_display_name_reply, read_group_listing,
    read_quota_acknowledgement, read_user_listing, HttpReply, ReplyOutcome,
};
use daenerys::request::{
    add_user_to_group_call, create_group_call, del_user_from_group_call, directories_call,
    groups_call, save_acl_call, save_quota_call, user_display_call, users_call, Method,
};
use daenerys::user::{
    lookup_state, member_label, sort_entries_by_cached_name, sort_members, subject_display_name,
    user_link_label, DisplayCache, NameState, User,
};

fn group(cn: &str, members: Option<&[&str]>) -> Group {
    Group {
        cn: cn.to_string(),
        description: format!("{cn} description"),
        member: members.map(|m| m.iter().map(|s| s.to_string()).collect()),
        owner: None,
    }
}

fn texts(v: &[&str]) -> Vec<String> {
    v.iter().map(|s| s.to_string()).collect()
}

#[test]
fn member_changes_turn_saved_into_edited() {
    let saved = group("team", Some(&["alice", "bob", "carol"]));
    let edited = group("team", Some(&["carol", "dave", "alice", "erin"]));
    let changes = plan_member_changes(&saved, &edited);
    let rd = |u: &str| AddDelUserToGroup { group_cn: "team".to_string(), user_cn: u.to_string() };
    assert_eq!(
        changes,
        vec![
            MemberChange::Remove(rd("bob")),
            MemberChange::Add(rd("dave")),
            MemberChange::Add(rd("erin")),
        ]
    );
    // Applying the changes to the saved members gives the edited members.
    let mut members: Vec<String> = saved.member.clone().unwrap();
    for c in &changes {
        match c {
            MemberChange::Remove(r) => members.retain(|m| *m != r.user_cn),
            MemberChange::Add(r) => members.push(r.user_cn.clone()),
        }
    }
    let mut got = members.clone();
    got.sort();
    let mut want = edited.member.clone().unwrap();
    want.sort();
    assert_eq!(got, want);
}

#[test]
fn member_changes_without_lists() {
    let saved = group("g", None);
    let edited = group("g", Some(&["x"]));
    let rd = |u: &str| AddDelUserToGroup { group_cn: "g".to_string(), user_cn: u.to_string() };
    assert_eq!(plan_member_changes(&saved, &edited), vec![MemberChange::Add(rd("x"))]);
    assert_eq!(plan_member_changes(&edited, &saved), vec![MemberChange::Remove(rd("x"))]);
    assert_eq!(plan_member_changes(&saved, &saved), vec![]);
}

#[test]
fn changes_name_the_edited_group() {
    let saved = group("old", Some(&["a"]));
    let edited = group("new", Some(&["b"]));
    let changes = plan_member_changes(&saved, &edited);
    for c in changes {
        match c {
            MemberChange::Remove(r) | MemberChange::Add(r) => assert_eq!(r.group_cn, "new"),
        }
    }
}

#[test]
fn text_list_membership() {
    let v = texts(&["a", "bb"]);
    assert!(holds_text(&v, "bb"));
    assert!(!holds_text(&v, "b"));
}

#[test]
fn group_kinds_without_root_groups() {
    assert_eq!(classify_group("lab", "lab", &None), GroupKind::Auto);
    assert_eq!(classify_group("lab-invite", "lab", &None), GroupKind::Invite);
    assert_eq!(classify_group("lab-x", "lab", &None), GroupKind::Plain);
}

#[test]
fn group_kinds_with_root_groups() {
    let roots = Some(texts(&["a", "b"]));
    assert_eq!(classify_group("lab-a", "lab", &roots), GroupKind::Auto);
    assert_eq!(classify_group("lab-b-invite", "lab", &roots), GroupKind::Invite);
    assert_eq!(classify_group("lab", "lab", &roots), GroupKind::Plain);
    assert_eq!(classify_group("lab-c", "lab", &roots), GroupKind::Plain);
    assert!(!GroupKind::Auto.members_editable());
    assert!(GroupKind::Invite.members_editable());
    assert!(!GroupKind::Invite.deletable());
    assert!(GroupKind::Plain.deletable());
}

#[test]
fn group_list_order() {
    assert_eq!(group_list_rank("lab", "lab"), 0);
    assert_eq!(group_list_rank("lab-invite", "lab"), 1);
    assert_eq!(group_list_rank("abc", "lab"), 2);
    let groups = vec![
        group("zoo", None),
        group("lab-invite", None),
        group("alpha", None),
        group("lab", None),
        group("beta", None),
    ];
    let sorted = sort_groups(groups, "lab");
    let names: Vec<_> = sorted.iter().map(|g| g.cn.clone()).collect();
    assert_eq!(names, vec!["lab", "lab-invite", "alpha", "beta", "zoo"]);
}

#[test]
fn group_order_uses_all_fields() {
    let mut a = group("same", Some(&["x"]));
    let mut b = group("same", None);
    a.description = "d".to_string();
    b.description = "d".to_string();
    let sorted = sort_groups(vec![a.clone(), b.clone()], "lab");
    assert_eq!(sorted, vec![b, a]);
}

fn cache_with(entries: &[(&str, Option<&str>)]) -> DisplayCache {
    let mut c = DisplayCache::new();
    for (k, v) in entries {
        c.insert(k.to_string(), v.map(|s| s.to_string()));
    }
    c
}

#[test]
fn display_names_from_cache() {
    let c = cache_with(&[("alice", Some("Alice Liddell")), ("ghost", None)]);
    assert_eq!(subject_display_name(&c, "alice"), "Alice Liddell");
    assert_eq!(subject_display_name(&c, "ghost"), "<invalid account> (ghost)");
    assert_eq!(subject_display_name(&c, "bob"), "bob");
    assert_eq!(member_label(&c, "alice"), ("Alice Liddell (alice)".to_string(), NameState::Known));
    assert_eq!(member_label(&c, "ghost"), ("<invalid account> (ghost)".to_string(), NameState::Invalid));
    assert_eq!(member_label(&c, "bob"), ("bob".to_string(), NameState::Unknown));
    assert_eq!(lookup_state(&c, "bob"), NameState::Unknown);
    let u = User { id: "u1".to_string(), display: "User One".to_string() };
    assert_eq!(user_link_label(&u), "User One [u1]");
}

#[test]
fn members_sort_by_lowercased_display() {
    let c = cache_with(&[("z1", Some("alice")), ("a1", Some("Zoe")), ("g", None)]);
    let members = texts(&["a1", "bob", "z1", "g", "Carl"]);
    let sorted = sort_members(&c, &members);
    assert_eq!(sorted, texts(&["g", "z1", "bob", "Carl", "a1"]));
}

#[test]
fn members_sort_by_unicode_lowercase() {
    let c = cache_with(&[("u1", Some("ÉLAN")), ("u2", Some("éa"))]);
    let sorted = sort_members(&c, &texts(&["u1", "u2"]));
    assert_eq!(sorted, texts(&["u2", "u1"]));
}

#[test]
fn entries_sort_by_cached_display() {
    let c = cache_with(&[("u2", Some("adam")), ("u3", Some("Bea"))]);
    let e = |cn: &str| AclEntry {
        qualifier: Qualifier::User(0),
        qualifier_cn: Some(cn.to_string()),
        qualifier_display: None,
        perm: 7,
    };
    let sorted = sort_entries_by_cached_name(&c, vec![e("u3"), e("unknown"), e("u2")]);
    let cns: Vec<_> = sorted.iter().map(|x| x.qualifier_cn.clone().unwrap()).collect();
    assert_eq!(cns, vec!["unknown", "u2", "u3"]);
}

fn reply(status: u16, text: Option<&str>) -> HttpReply {
    HttpReply { status, text: text.map(|s| s.to_string()) }
}

#[test]
fn acknowledgement_replies() {
    assert_eq!(read_acknowledgement(&reply(200, Some("x"))), ReplyOutcome::Done);
    assert_eq!(read_acknowledgement(&reply(500, Some("err"))), ReplyOutcome::RemoteError("err".to_string()));
    assert_eq!(read_acknowledgement(&reply(500, None)), ReplyOutcome::Done);
    assert_eq!(read_quota_acknowledgement(&reply(200, None)), ReplyOutcome::Done);
    assert_eq!(read_quota_acknowledgement(&reply(403, Some("e"))), ReplyOutcome::RemoteError("e".to_string()));
    assert_eq!(read_quota_acknowledgement(&reply(403, None)), ReplyOutcome::Failed("403".to_string()));
}

#[test]
fn listing_replies() {
    assert_eq!(read_group_listing(&reply(200, Some("[]"))), ReplyOutcome::Payload("[]".to_string()));
    assert_eq!(read_group_listing(&reply(200, None)), ReplyOutcome::Done);
    assert_eq!(read_group_listing(&reply(404, Some("e"))), ReplyOutcome::RemoteError("e".to_string()));
    assert_eq!(read_group_listing(&reply(404, None)), ReplyOutcome::Done);
    assert_eq!(read_user_listing(&reply(200, Some("[]"))), ReplyOutcome::Payload("[]".to_string()));
    assert_eq!(read_user_listing(&reply(200, None)), ReplyOutcome::Done);
    assert_eq!(read_user_listing(&reply(502, Some("e"))), ReplyOutcome::RemoteError("e".to_string()));
    assert_eq!(read_user_listing(&reply(502, None)), ReplyOutcome::Failed("502".to_string()));
    assert_eq!(read_directory_listing(&reply(500, Some("[]"))), ReplyOutcome::Payload("[]".to_string()));
    assert_eq!(read_directory_listing(&reply(200, None)), ReplyOutcome::Done);
}

#[test]
fn display_name_replies() {
    assert_eq!(read_display_name_reply(&reply(200, Some("\"A\""))), ReplyOutcome::Payload("\"A\"".to_string()));
    assert_eq!(read_display_name_reply(&reply(200, None)), ReplyOutcome::Value("invalid user".to_string()));
    assert_eq!(read_display_name_reply(&reply(401, Some("e"))), ReplyOutcome::RemoteError("e".to_string()));
    assert_eq!(read_display_name_reply(&reply(401, None)), ReplyOutcome::Failed("401".to_string()));
}

#[test]
fn api_calls() {
    let api = "http://localhost:3000";
    assert_eq!(save_acl_call(api).url, "http://localhost:3000/acls");
    assert_eq!(save_acl_call(api).method, Method::Post);
    assert_eq!(directories_call(api).url, "http://localhost:3000/directories");
    assert_eq!(del_user_from_group_call(api).method.name(), "DELETE");
    assert_eq!(add_user_to_group_call(api).method.name(), "PATCH");
    assert_eq!(add_user_to_group_call(api).url, "http://localhost:3000/groups/user");
    assert_eq!(create_group_call(api).url, "http://localhost:3000/groups");
    assert_eq!(groups_call(api).method.name(), "GET");
    assert_eq!(save_quota_call(api).url, "http://localhost:3000/quota");
    assert_eq!(user_display_call(api, "bob").url, "http://localhost:3000/userdisplay?q=bob");
    assert_eq!(users_call(api, "al").url, "http://localhost:3000/users?q=al");
}

#[test]
fn naming_rules() {
    assert!(TextPattern::new("[").is_err());
    let rule = TextPattern::new("^[a-zA-Z0-9_-]+$").unwrap();
    assert_eq!(rule.source(), "^[a-zA-Z0-9_-]+$");
    assert!(rule.is_match("my_dir"));
    assert!(!rule.is_match("my dir"));
    assert!(name_acceptable(&rule, "ab"));
    assert!(!name_acceptable(&rule, "a"));
    assert!(!name_acceptable(&rule, "a b"));
    let q = TextPattern::new("^[0-9]+$").unwrap();
    assert!(quota_text_acceptable(&q, "12"));
    assert!(!quota_text_acceptable(&q, ""));
    assert!(!quota_text_acceptable(&q, "1.5"));
}
