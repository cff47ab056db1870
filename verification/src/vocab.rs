//! Constrained vocabularies persisted by the state machine.
use vstd::prelude::*;
use crate::text::str_eq;

verus! {

/// Effective role on one object.
#[derive(Debug, Clone, Copy, PartialEq, Eq, Structural)]
pub enum ObjectRole {
    /// Read access.
    Viewer,
    /// Read and write access.
    Editor,
    /// Full administration.
    Admin,
}

/// Role inside a workspace or group membership.
#[derive(Debug, Clone, Copy, PartialEq, Eq, Structural)]
pub enum MembershipRole {
    /// Ordinary member.
    Member,
    /// Administrator.
    Admin,
}

/// Stored representation of an object role.
pub open spec fn object_role_name(role: ObjectRole) -> Seq<char> {
    match role {
        ObjectRole::Viewer => "viewer"@,
        ObjectRole::Editor => "editor"@,
        ObjectRole::Admin => "admin"@,
    }
}

/// Object role denoted by a stored representation.
pub open spec fn parse_object_role(s: Seq<char>) -> Option<ObjectRole> {
    if s == "viewer"@ {
        Some(ObjectRole::Viewer)
    } else if s == "editor"@ {
        Some(ObjectRole::Editor)
    } else if s == "admin"@ {
        Some(ObjectRole::Admin)
    } else {
        None
    }
}

/// Stored representation of a membership role.
pub open spec fn membership_role_name(role: MembershipRole) -> Seq<char> {
    match role {
        MembershipRole::Member => "member"@,
        MembershipRole::Admin => "admin"@,
    }
}

/// Membership role denoted by a stored representation.
pub open spec fn parse_membership_role(s: Seq<char>) -> Option<MembershipRole> {
    if s == "member"@ {
        Some(MembershipRole::Member)
    } else if s == "admin"@ {
        Some(MembershipRole::Admin)
    } else {
        None
    }
}

/// Strength of an object role: viewer < editor < admin.
pub open spec fn role_rank(role: ObjectRole) -> u8 {
    match role {
        ObjectRole::Viewer => 1,
        ObjectRole::Editor => 2,
        ObjectRole::Admin => 3,
    }
}

impl ObjectRole {
    /// Returns the stored representation.
    pub fn as_str(self) -> (s: &'static str)
        ensures
            s@ == object_role_name(self),
    {
        match self {
            ObjectRole::Viewer => "viewer",
            ObjectRole::Editor => "editor",
            ObjectRole::Admin => "admin",
        }
    }

    /// Parses a stored representation.
    pub fn parse(s: &str) -> (r: Option<ObjectRole>)
        ensures
            r == parse_object_role(s@),
    {
        if str_eq(s, "viewer") {
            Some(ObjectRole::Viewer)
        } else if str_eq(s, "editor") {
            Some(ObjectRole::Editor)
        } else if str_eq(s, "admin") {
            Some(ObjectRole::Admin)
        } else {
            None
        }
    }
}

impl MembershipRole {
    /// Returns the stored representation.
    pub fn as_str(self) -> (s: &'static str)
        ensures
            s@ == membership_role_name(self),
    {
        match self {
            MembershipRole::Member => "member",
            MembershipRole::Admin => "admin",
        }
    }

    /// Parses a stored representation.
    pub fn parse(s: &str) -> (r: Option<MembershipRole>)
        ensures
            r == parse_membership_role(s@),
    {
        if str_eq(s, "member") {
            Some(MembershipRole::Member)
        } else if str_eq(s, "admin") {
            Some(MembershipRole::Admin)
        } else {
            None
        }
    }
}

/// Numeric rank used to compare object roles.
pub fn object_role_rank(role: ObjectRole) -> (r: u8)
    ensures
        r == role_rank(role),
{
    match role {
        ObjectRole::Viewer => 1,
        ObjectRole::Editor => 2,
        ObjectRole::Admin => 3,
    }
}

/// Parsing a role's stored representation gives the role back.
pub proof fn object_role_round_trip(role: ObjectRole)
    ensures
        parse_object_role(object_role_name(role)) == Some(role),
{
    reveal_strlit("viewer");
    reveal_strlit("editor");
    reveal_strlit("admin");
    assert("viewer"@[0] != "editor"@[0]);
    assert("viewer"@[0] != "admin"@[0]);
    assert("editor"@[0] != "admin"@[0]);
}

/// Parsing a membership role's stored representation gives the role back.
pub proof fn membership_role_round_trip(role: MembershipRole)
    ensures
        parse_membership_role(membership_role_name(role)) == Some(role),
{
    reveal_strlit("member");
    reveal_strlit("admin");
    assert("member"@[0] != "admin"@[0]);
}

} // verus!
