//! The caller of an endpoint and what the caller may do.
use crate::error::{AppError, ErrorCode};
use vstd::prelude::*;

verus! {

/// What a user is allowed to act as.
#[derive(Debug, Clone, Copy, PartialEq, Eq, Structural)]
pub enum Role {
    Manager,
    Clerk,
    Inspector,
    CncProgrammer,
    ShelfAccount,
}

/// The authenticated caller.
#[derive(Debug, Clone)]
pub struct CurrentUser {
    pub id: i64,
    pub username: String,
    pub roles: Vec<Role>,
    /// The shelves that the caller is bound to.
    pub shelf_ids: Vec<i64>,
    /// The caller is bound to every shelf.
    pub shelf_wildcard: bool,
}

/// The message of a refusal for want of a role.
pub open spec fn forbidden_text() -> Seq<char> {
    "权限不足"@
}

impl CurrentUser {
    /// The caller has this role.
    pub open spec fn is(&self, role: Role) -> bool {
        self.roles@.contains(role)
    }

    /// The caller has one of these roles.
    pub open spec fn is_any(&self, roles: Seq<Role>) -> bool {
        exists|i: int| 0 <= i < roles.len() && self.is(#[trigger] roles[i])
    }

    /// The caller has some role at all.
    pub open spec fn has_some_role(&self) -> bool {
        self.roles@.len() > 0
    }

    /// The caller may see this shelf.
    pub open spec fn sees_shelf(&self, shelf_id: i64) -> bool {
        self.shelf_wildcard || self.is(Role::Manager) || self.shelf_ids@.contains(shelf_id)
    }

    /// Whether the caller has this role.
    pub fn has_role(&self, role: Role) -> (r: bool)
        ensures
            r == self.is(role),
    {
        let mut i: usize = 0;
        while i < self.roles.len()
            invariant
                i <= self.roles@.len(),
                forall|j: int| 0 <= j < i ==> self.roles@[j] != role,
            decreases self.roles@.len() - i,
        {
            if self.roles[i] == role {
                assert(self.roles@[i as int] == role);
                return true;
            }
            i = i + 1;
        }
        false
    }

    /// Refuses a caller without this role.
    pub fn require_role(&self, role: Role) -> (r: Result<(), AppError>)
        ensures
            r is Ok <==> self.is(role),
            r matches Err(e) ==> e.says(ErrorCode::Forbidden, forbidden_text()),
    {
        if self.has_role(role) {
            Ok(())
        } else {
            Err(AppError::biz(ErrorCode::Forbidden, "权限不足"))
        }
    }

    /// Refuses a caller that has none of these roles.
    pub fn require_any_role(&self, roles: &[Role]) -> (r: Result<(), AppError>)
        ensures
            r is Ok <==> self.is_any(roles@),
            r matches Err(e) ==> e.says(ErrorCode::Forbidden, forbidden_text()),
    {
        let mut i: usize = 0;
        while i < roles.len()
            invariant
                i <= roles@.len(),
                forall|j: int| 0 <= j < i ==> !self.is(#[trigger] roles@[j]),
            decreases roles@.len() - i,
        {
            if self.has_role(roles[i]) {
                assert(self.is(roles@[i as int]));
                return Ok(());
            }
            i = i + 1;
        }
        Err(AppError::biz(ErrorCode::Forbidden, "权限不足"))
    }

    /// Refuses a caller that has none of the five roles.
    pub fn require_signed_in(&self) -> (r: Result<(), AppError>)
        ensures
            r is Ok <==> self.has_some_role(),
            r matches Err(e) ==> e.says(ErrorCode::Forbidden, forbidden_text()),
    {
        let all: [Role; 5] = [
            Role::Manager,
            Role::Clerk,
            Role::CncProgrammer,
            Role::ShelfAccount,
            Role::Inspector,
        ];
        proof {
            assert(all@[0] == Role::Manager);
            assert(all@[1] == Role::Clerk);
            assert(all@[2] == Role::CncProgrammer);
            assert(all@[3] == Role::ShelfAccount);
            assert(all@[4] == Role::Inspector);
            if self.has_some_role() {
                let first = self.roles@[0];
                assert(self.is(first));
                match first {
                    Role::Manager => assert(self.is(all@[0])),
                    Role::Clerk => assert(self.is(all@[1])),
                    Role::CncProgrammer => assert(self.is(all@[2])),
                    Role::ShelfAccount => assert(self.is(all@[3])),
                    Role::Inspector => assert(self.is(all@[4])),
                }
            }
        }
        self.require_any_role(&all)
    }

    /// Whether the caller may see this shelf. A manager and a caller bound to
    /// every shelf see all of them.
    pub fn can_access_shelf(&self, shelf_id: i64) -> (r: bool)
        ensures
            r == self.sees_shelf(shelf_id),
    {
        if self.shelf_wildcard || self.has_role(Role::Manager) {
            return true;
        }
        let mut i: usize = 0;
        while i < self.shelf_ids.len()
            invariant
                i <= self.shelf_ids@.len(),
                forall|j: int| 0 <= j < i ==> self.shelf_ids@[j] != shelf_id,
            decreases self.shelf_ids@.len() - i,
        {
            if self.shelf_ids[i] == shelf_id {
                assert(self.shelf_ids@[i as int] == shelf_id);
                return true;
            }
            i = i + 1;
        }
        false
    }
}

} // verus!
