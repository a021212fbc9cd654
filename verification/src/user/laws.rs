//! What the endpoints on users do, told by what goes in and what comes out.
use super::dto::{
    CurrentUserOut, MenuNodeOut, UserAddRoleRequest, UserCreateRequest, UserListOut, UserListQuery,
    UserOut, UserRoleOut, UserUpdateRequest,
};
use super::menu::{menu_tree, shows_nodes};
use super::model::{Menu, User};
use super::repo::UserRoleRow;
use super::service::{
    adds_role, changes_password, creates_user, deactivates_user, describes_caller, gets_user,
    lists_roles, lists_users, removes_role, resets_password, role_name, row_with_id,
    shows_menus, shows_role, shows_user, updates_user, AddRoleFacts, ChangePasswordFacts,
    CreateUserFacts, CurrentUserFacts, DeactivateUserFacts, GetUserFacts, ListRolesFacts,
    ListUsersFacts, RemoveRoleFacts, ResetPasswordFacts, UpdateUserFacts, UserAsk,
};
use crate::auth::{CurrentUser, Role};
use crate::error::ErrorCode;
use crate::flow::{absent, present, Next};
use crate::laws::is_page;
use crate::text::{decimal, non_blank, opt_view, trimmed, unicode_lowercase};
use vstd::prelude::*;

verus! {

// ---------------------------------------------------------------------------
// What is shown
// ---------------------------------------------------------------------------

/// The role is told with its own data; the id of its scope is written out.
pub open spec fn role_has_data_of(o: UserRoleOut, r: UserRoleRow) -> bool {
    &&& o.id == r.id && o.version == r.version && o.role == r.role && o.scope_type == r.scope_type
    &&& o.shelf_code == r.shelf_code && o.shelf_name == r.shelf_name
    &&& o.scope_id is Some <==> r.scope_id is Some
    &&& r.scope_id is Some ==> o.scope_id->0@ == decimal(r.scope_id->0 as int)
}

/// The roles are told one by one, in order.
pub open spec fn roles_have_data_of(os: Seq<UserRoleOut>, rs: Seq<UserRoleRow>) -> bool {
    &&& os.len() == rs.len()
    &&& forall|i: int| 0 <= i < rs.len() ==> role_has_data_of(#[trigger] os[i], rs[i])
}

/// The user is told with the own data and roles; of the password nothing is told.
pub open spec fn has_data_of(o: UserOut, u: User, roles: Seq<UserRoleRow>) -> bool {
    &&& o.id == u.id && o.version == u.version && o.username == u.username && o.full_name
        == u.full_name && o.phone == u.phone && o.is_active == u.is_active
    &&& o.last_login_at == u.last_login_at && o.created_at == u.created_at && o.updated_at
        == u.updated_at
    &&& roles_have_data_of(o.roles@, roles)
}

proof fn lemma_shows_user(o: UserOut, u: User, roles: Seq<UserRoleRow>)
    requires
        shows_user(o, u, roles),
    ensures
        has_data_of(o, u, roles),
{
    assert forall|i: int| 0 <= i < roles.len() implies role_has_data_of(
        #[trigger] o.roles@[i],
        roles[i],
    ) by {
        assert(shows_role(o.roles@[i], roles[i]));
    }
}

/// The five roles have these names.
pub proof fn roles_have_names()
    ensures
        role_name(Role::Manager)@ == "MANAGER"@,
        role_name(Role::Clerk)@ == "CLERK"@,
        role_name(Role::Inspector)@ == "INSPECTOR"@,
        role_name(Role::CncProgrammer)@ == "CNC_PROGRAMMER"@,
        role_name(Role::ShelfAccount)@ == "SHELF_ACCOUNT"@,
{
}

// ---------------------------------------------------------------------------
// Users
// ---------------------------------------------------------------------------

/// A manager gets the page of users that was asked for: the same search in the
/// list and in the count, each user with the own data and roles.
pub proof fn list_shows_the_page_asked_for(
    query: UserListQuery,
    current: CurrentUser,
    f: ListUsersFacts,
    n: Next<UserAsk, UserListOut>,
)
    requires
        lists_users(query, current, f, n),
    ensures
        n.is_refused(ErrorCode::Forbidden) <==> !current.roles@.contains(Role::Manager),
        n matches Next::Done(Err(e)) ==> e.code is Forbidden,
        n matches Next::Ask(a) ==> match a {
            UserAsk::Begin => !f.begun,
            UserAsk::Users { like, is_active, limit, offset } => f.rows is None && is_active
                == query.is_active && opt_view(like) == non_blank(opt_view(query.username_like))
                && is_page(query.limit, query.offset, limit, offset),
            UserAsk::CountUsers { like, is_active } => f.total is None && is_active
                == query.is_active && opt_view(like) == non_blank(opt_view(query.username_like)),
            UserAsk::RolesOfUser { user_id } => f.roles@.len() < f.rows->0@.len() && user_id
                == f.rows->0@[f.roles@.len() as int].id,
            _ => false,
        },
        n matches Next::Done(Ok(out)) ==> {
            &&& f.rows is Some && f.total == Some(out.total)
            &&& is_page(query.limit, query.offset, out.limit, out.offset)
            &&& out.items@.len() == f.rows->0@.len()
            &&& forall|i: int|
                0 <= i < out.items@.len() ==> has_data_of(
                    #[trigger] out.items@[i],
                    f.rows->0@[i],
                    f.roles@[i]@,
                )
        },
{
    if let Next::Done(Ok(out)) = n {
        assert forall|i: int| 0 <= i < out.items@.len() implies has_data_of(
            #[trigger] out.items@[i],
            f.rows->0@[i],
            f.roles@[i]@,
        ) by {
            lemma_shows_user(out.items@[i], f.rows->0@[i], f.roles@[i]@);
        }
    }
}

/// A manager gets one user, with the own data and roles.
pub proof fn get_shows_the_named_user(
    user_id: i64,
    current: CurrentUser,
    f: GetUserFacts,
    n: Next<UserAsk, UserOut>,
)
    requires
        gets_user(user_id, current, f, n),
    ensures
        n.is_refused(ErrorCode::Forbidden) <==> !current.roles@.contains(Role::Manager),
        n.is_refused(ErrorCode::BizUserNotFound) <==> current.roles@.contains(Role::Manager)
            && f.begun && absent(f.user),
        n matches Next::Ask(a) ==> match a {
            UserAsk::Begin => !f.begun,
            UserAsk::UserById { id } => id == user_id && f.user is None,
            UserAsk::RolesOfUser { user_id: u } => u == f.user->0->0.id && f.roles is None,
            _ => false,
        },
        n.is_ok() <==> current.roles@.contains(Role::Manager) && f.begun && present(f.user)
            && f.roles is Some,
        n matches Next::Done(Ok(o)) ==> has_data_of(o, f.user->0->0, f.roles->0@),
{
    if let Next::Done(Ok(o)) = n {
        lemma_shows_user(o, f.user->0->0, f.roles->0@);
    }
}

/// A manager creates a user with a name, a password and a full name that are not
/// empty, and a name that nobody has. What is stored is the name in small letters,
/// the hash of the password that was sent, and the rest as it was sent; nothing
/// lasts unless it is committed, and success is told only then.
pub proof fn creation_stores_what_was_sent(
    req: UserCreateRequest,
    current: CurrentUser,
    f: CreateUserFacts,
    n: Next<UserAsk, UserOut>,
)
    requires
        creates_user(req, current, f, n),
    ensures
        ({
            let manager = current.roles@.contains(Role::Manager);
            let name = unicode_lowercase(trimmed(req.username@));
            let named = name.len() > 0 && req.password@.len() > 0;
            &&& !manager ==> n.is_refused(ErrorCode::Forbidden)
            &&& manager && f.begun && !named ==> n.is_refused(ErrorCode::ValidationError)
            &&& manager && f.begun && named && present(f.namesake) ==> n.is_refused(
                ErrorCode::BizDuplicateUsername,
            )
            &&& manager && f.begun && named && absent(f.namesake) && trimmed(req.full_name@).len()
                == 0 ==> n.is_refused(ErrorCode::ValidationError)
            &&& n matches Next::Ask(a) ==> manager && match a {
                UserAsk::Begin => !f.begun,
                UserAsk::UserByUsername { username } => username@ == name && f.namesake is None,
                UserAsk::NewId => f.id is None,
                UserAsk::HashPassword { password } => password@ == req.password@
                    && f.password_hash is None,
                UserAsk::Now => f.now is None,
                UserAsk::CreateUser { insert } => {
                    &&& f.created is None && named && absent(f.namesake)
                    &&& f.id == Some(insert.id) && insert.username@ == name && f.password_hash
                        == Some(insert.password_hash)
                    &&& insert.full_name@ == trimmed(req.full_name@) && insert.full_name@.len() > 0
                    &&& opt_view(insert.phone) == non_blank(opt_view(req.phone))
                    &&& insert.is_active && f.now == Some(insert.created_at) && insert.created_by
                        == Some(current.id)
                },
                UserAsk::UserById { id } => f.id == Some(id) && f.created is Some && f.created->0
                    is Ok && f.user is None,
                UserAsk::RolesOfUser { user_id } => f.roles is None && user_id == f.user->0->0.id,
                UserAsk::Commit => !f.committed && f.created is Some && f.created->0 is Ok
                    && present(f.user) && f.roles is Some,
                _ => false,
            }
            &&& n matches Next::Done(Ok(o)) ==> {
                &&& manager && named && absent(f.namesake) && f.committed
                &&& f.created is Some && f.created->0 is Ok
                &&& has_data_of(o, f.user->0->0, f.roles->0@)
            }
            &&& manager && f.begun && named && absent(f.namesake) && trimmed(req.full_name@).len()
                > 0 && f.id is Some && f.password_hash is Some && f.now is Some && f.created is Some
                ==> {
                &&& f.created->0 is Err && f.created->0->Err_0.sqlstate is Some
                    && f.created->0->Err_0.sqlstate->0@ == "23505"@ ==> n.is_refused(
                    ErrorCode::BizDuplicateUsername,
                )
                &&& f.created->0 is Err && !(f.created->0->Err_0.sqlstate is Some
                    && f.created->0->Err_0.sqlstate->0@ == "23505"@) ==> (n matches Next::Done(Err(e))
                    && e == f.created->0->Err_0.error)
                &&& f.created->0 is Ok && absent(f.user) ==> n.is_refused(ErrorCode::Internal)
                &&& f.created->0 is Ok && present(f.user) && f.roles is Some && f.committed
                    ==> n.is_ok()
            }
        }),
{
    if let Next::Done(Ok(o)) = n {
        lemma_shows_user(o, f.user->0->0, f.roles->0@);
    }
}

/// A manager changes a user at the version that was read; only what the request
/// names is set. A phone that is named and empty is taken away. Success is told
/// only once the change is committed, with the user as read back.
pub proof fn update_sets_what_the_request_names(
    user_id: i64,
    req: UserUpdateRequest,
    current: CurrentUser,
    f: UpdateUserFacts,
    n: Next<UserAsk, UserOut>,
)
    requires
        updates_user(user_id, req, current, f, n),
    ensures
        ({
            let manager = current.roles@.contains(Role::Manager);
            let sound = (req.full_name is None || trimmed(req.full_name->0@).len() > 0) && (
            req.password is None || req.password->0@.len() > 0);
            &&& n.is_refused(ErrorCode::Forbidden) <==> !manager
            &&& manager && f.begun && absent(f.user) ==> n.is_refused(ErrorCode::BizUserNotFound)
            &&& manager && f.begun && present(f.user) && !sound ==> n.is_refused(
                ErrorCode::ValidationError,
            )
            &&& n matches Next::Ask(a) ==> manager && match a {
                UserAsk::Begin => !f.begun,
                UserAsk::UserToChange { id } => id == user_id && f.user is None,
                UserAsk::HashPassword { password } => req.password is Some && password@
                    == req.password->0@ && f.password_hash is None,
                UserAsk::Now => f.now is None,
                UserAsk::UpdateUser { id, version, patch, when, by } => {
                    &&& sound && f.affected is None
                    &&& id == f.user->0->0.id && version == f.user->0->0.version && f.now == Some(
                        when,
                    ) && by == Some(current.id)
                    &&& patch.full_name is Some <==> req.full_name is Some
                    &&& req.full_name is Some ==> patch.full_name->0@ == trimmed(req.full_name->0@)
                    &&& patch.set_phone <==> req.phone is Some
                    &&& opt_view(patch.phone) == non_blank(opt_view(req.phone))
                    &&& req.password is None ==> patch.password_hash is None
                    &&& req.password is Some ==> patch.password_hash is Some && patch.password_hash
                        == f.password_hash
                    &&& patch.is_active == req.is_active
                },
                UserAsk::UserById { id } => id == user_id && f.updated is None && f.affected is Some
                    && f.affected->0 > 0,
                UserAsk::RolesOfUser { user_id: u } => u == f.updated->0->0.id && f.roles is None,
                UserAsk::Commit => !f.committed && f.affected is Some && f.affected->0 > 0,
                _ => false,
            }
            &&& manager && f.begun && present(f.user) && sound && (req.password is None
                || f.password_hash is Some) && f.now is Some && f.affected == Some(0u64)
                ==> n.is_refused(ErrorCode::VersionConflict)
            &&& n matches Next::Done(Ok(o)) ==> {
                &&& manager && sound && f.committed && f.affected is Some && f.affected->0 > 0
                &&& has_data_of(o, f.updated->0->0, f.roles->0@)
            }
            &&& manager && f.begun && present(f.user) && sound && (req.password is None
                || f.password_hash is Some) && f.now is Some && f.affected is Some && f.affected->0
                > 0 && present(f.updated) && f.roles is Some && f.committed ==> n.is_ok()
        }),
{
    if let Next::Done(Ok(o)) = n {
        lemma_shows_user(o, f.updated->0->0, f.roles->0@);
    }
}

/// A manager deactivates a user at the version that was read; the answer shows
/// the user as not active, one version on, changed at the time after the write.
pub proof fn deactivation_takes_the_user_out(
    user_id: i64,
    current: CurrentUser,
    f: DeactivateUserFacts,
    n: Next<UserAsk, UserOut>,
)
    requires
        deactivates_user(user_id, current, f, n),
        f.user matches Some(Some(u)) ==> u.version < i32::MAX,
    ensures
        n.is_refused(ErrorCode::Forbidden) <==> !current.roles@.contains(Role::Manager),
        n.is_refused(ErrorCode::BizUserNotFound) <==> current.roles@.contains(Role::Manager)
            && f.begun && absent(f.user),
        n.is_refused(ErrorCode::VersionConflict) <==> current.roles@.contains(Role::Manager)
            && f.begun && present(f.user) && f.when is Some && f.affected == Some(0u64),
        n matches Next::Ask(a) ==> match a {
            UserAsk::Begin => !f.begun,
            UserAsk::UserById { id } => id == user_id && f.user is None,
            UserAsk::Now => f.when is None,
            UserAsk::SoftDeleteUser { id, version, when, by } => {
                &&& f.affected is None && id == f.user->0->0.id && version == f.user->0->0.version
                &&& f.when == Some(when) && by == Some(current.id)
            },
            UserAsk::RolesOfUser { user_id: u } => u == f.user->0->0.id && f.roles is None
                && f.affected is Some && f.affected->0 > 0,
            UserAsk::NowAfterWrite => f.now is None && f.affected is Some && f.affected->0 > 0,
            UserAsk::Commit => !f.committed && f.affected is Some && f.affected->0 > 0,
            _ => false,
        },
        n.is_ok() <==> current.roles@.contains(Role::Manager) && f.begun && present(f.user)
            && f.when is Some && f.affected is Some && f.affected->0 > 0 && f.roles is Some
            && f.now is Some && f.committed,
        n matches Next::Done(Ok(o)) ==> {
            let u = f.user->0->0;
            &&& o.id == u.id && o.username == u.username && o.full_name == u.full_name && o.phone
                == u.phone && o.last_login_at == u.last_login_at && o.created_at == u.created_at
            &&& !o.is_active && o.version == u.version + 1 && f.now == Some(o.updated_at)
            &&& roles_have_data_of(o.roles@, f.roles->0@)
        },
{
    if let Next::Done(Ok(o)) = n {
        let u = f.user->0->0;
        lemma_shows_user(
            o,
            super::service::deactivated(u, f.now->0, current.id),
            f.roles->0@,
        );
    }
}

// ---------------------------------------------------------------------------
// Passwords
// ---------------------------------------------------------------------------

/// Users change their own password, managers that of anyone; the user is there
/// and active, and the old password has to be the user's. The hash of the new one
/// is stored, and then the user's sessions end.
pub proof fn password_change_needs_the_old_one(
    user_id: i64,
    old_password: Seq<char>,
    new_password: Seq<char>,
    current: CurrentUser,
    f: ChangePasswordFacts,
    n: Next<UserAsk, ()>,
)
    requires
        changes_password(user_id, old_password, new_password, current, f, n),
    ensures
        ({
            let allowed = user_id == current.id || current.roles@.contains(Role::Manager);
            let active = present(f.user) && f.user->0->0.is_active;
            &&& n.is_refused(ErrorCode::Forbidden) <==> !allowed
            &&& n.is_refused(ErrorCode::ValidationError) <==> allowed && new_password.len() == 0
            &&& allowed && new_password.len() > 0 && f.begun && f.user is Some && !active
                ==> n.is_refused(ErrorCode::BizUserNotFound)
            &&& n.is_refused(ErrorCode::BizOldPasswordMismatch) <==> allowed && new_password.len()
                > 0 && f.begun && active && f.verified == Some(false)
            &&& n matches Next::Ask(a) ==> allowed && new_password.len() > 0 && match a {
                UserAsk::Begin => !f.begun,
                UserAsk::UserById { id } => id == user_id && f.user is None,
                UserAsk::VerifyPassword { password, hash } => password@ == old_password && hash
                    == f.user->0->0.password_hash && f.verified is None,
                UserAsk::HashPassword { password } => password@ == new_password && f.verified
                    == Some(true) && f.password_hash is None,
                UserAsk::Now => f.now is None && f.verified == Some(true),
                UserAsk::RotatePassword { id, version, password_hash, when, by } => {
                    &&& f.verified == Some(true) && active && f.affected is None
                    &&& id == f.user->0->0.id && version == f.user->0->0.version
                    &&& f.password_hash == Some(password_hash) && f.now == Some(when) && by == Some(
                        current.id,
                    )
                },
                UserAsk::Commit => !f.committed && f.verified == Some(true) && f.affected is Some
                    && f.affected->0 > 0,
                UserAsk::ClearSessions { user_id: u } => u == user_id && f.committed && !f.cleared
                    && f.verified == Some(true),
                _ => false,
            }
            &&& n.is_ok() <==> allowed && new_password.len() > 0 && f.begun && active && f.verified
                == Some(true) && f.password_hash is Some && f.now is Some && f.affected is Some
                && f.affected->0 > 0 && f.committed && f.cleared
            &&& allowed && new_password.len() > 0 && f.begun && active && f.verified == Some(true)
                && f.password_hash is Some && f.now is Some && f.affected == Some(0u64)
                ==> n.is_refused(ErrorCode::VersionConflict)
        }),
{
}

/// A manager resets a user's password at the version that was read to the one
/// that all resets give; then the user's sessions end.
pub proof fn password_reset_is_for_managers(
    user_id: i64,
    current: CurrentUser,
    f: ResetPasswordFacts,
    n: Next<UserAsk, UserOut>,
)
    requires
        resets_password(user_id, current, f, n),
    ensures
        n.is_refused(ErrorCode::Forbidden) <==> !current.roles@.contains(Role::Manager),
        current.roles@.contains(Role::Manager) && f.begun && absent(f.user) ==> n.is_refused(
            ErrorCode::BizUserNotFound,
        ),
        n matches Next::Ask(a) ==> match a {
            UserAsk::Begin => !f.begun,
            UserAsk::UserToChange { id } => id == user_id && f.user is None,
            UserAsk::HashPassword { password } => password@ == "changeme"@
                && f.password_hash is None,
            UserAsk::Now => f.now is None,
            UserAsk::RotatePassword { id, version, password_hash, when, by } => {
                &&& f.affected is None && id == f.user->0->0.id && version == f.user->0->0.version
                &&& f.password_hash == Some(password_hash) && f.now == Some(when) && by == Some(
                    current.id,
                )
            },
            UserAsk::UserById { id } => id == user_id && f.updated is None && f.affected is Some
                && f.affected->0 > 0,
            UserAsk::RolesOfUser { user_id: u } => u == f.updated->0->0.id && f.roles is None,
            UserAsk::Commit => !f.committed && f.affected is Some && f.affected->0 > 0,
            UserAsk::ClearSessions { user_id: u } => u == user_id && f.committed && !f.cleared
                && f.affected is Some && f.affected->0 > 0 && present(f.updated) && f.roles is Some,
            _ => false,
        },
        n matches Next::Done(Ok(o)) ==> {
            &&& f.committed && f.cleared && f.affected is Some && f.affected->0 > 0
            &&& has_data_of(o, f.updated->0->0, f.roles->0@)
        },
        current.roles@.contains(Role::Manager) && f.begun && present(f.user)
            && f.password_hash is Some && f.now is Some && f.affected == Some(0u64)
            ==> n.is_refused(ErrorCode::VersionConflict),
        current.roles@.contains(Role::Manager) && f.begun && present(f.user)
            && f.password_hash is Some && f.now is Some && f.affected is Some && f.affected->0 > 0
            && present(f.updated) && f.roles is Some && f.committed && f.cleared ==> n.is_ok(),
{
    if let Next::Done(Ok(o)) = n {
        lemma_shows_user(o, f.updated->0->0, f.roles->0@);
    }
}

// ---------------------------------------------------------------------------
// Roles
// ---------------------------------------------------------------------------

/// A manager gets the roles of a user who is there, as they were read.
pub proof fn roles_are_listed_as_read(
    user_id: i64,
    current: CurrentUser,
    f: ListRolesFacts,
    n: Next<UserAsk, Vec<UserRoleOut>>,
)
    requires
        lists_roles(user_id, current, f, n),
    ensures
        n.is_refused(ErrorCode::Forbidden) <==> !current.roles@.contains(Role::Manager),
        n.is_refused(ErrorCode::BizUserNotFound) <==> current.roles@.contains(Role::Manager)
            && f.begun && absent(f.user),
        n matches Next::Ask(a) ==> match a {
            UserAsk::Begin => !f.begun,
            UserAsk::UserById { id } => id == user_id && f.user is None,
            UserAsk::RolesOfUser { user_id: u } => u == user_id && f.rows is None,
            _ => false,
        },
        n.is_ok() <==> current.roles@.contains(Role::Manager) && f.begun && present(f.user)
            && f.rows is Some,
        n matches Next::Done(Ok(out)) ==> roles_have_data_of(out@, f.rows->0@),
{
    if let Next::Done(Ok(out)) = n {
        assert forall|i: int| 0 <= i < f.rows->0@.len() implies role_has_data_of(
            #[trigger] out@[i],
            f.rows->0@[i],
        ) by {
            assert(shows_role(out@[i], f.rows->0@[i]));
        }
    }
}

/// The scope goes with the role: a shelf account is bound to a shelf that is
/// there, active and in one of the two zones; every other role has no scope.
pub open spec fn scope_goes_with_role(req: UserAddRoleRequest, f: AddRoleFacts) -> bool {
    if req.role is ShelfAccount {
        &&& req.scope_type is Some && req.scope_type->0@ == "shelf"@ && req.scope_id is Some
        &&& present(f.shelf) && f.shelf->0->0.is_active && (f.shelf->0->0.zone@ == "PRODUCTION"@
            || f.shelf->0->0.zone@ == "INSPECTION"@)
    } else {
        req.scope_type is None && req.scope_id is None
    }
}

/// The row with an id is the first that has it.
pub proof fn row_with_an_id_has_it(rows: Seq<UserRoleRow>, id: i64)
    ensures
        row_with_id(rows, id) is Some <==> exists|i: int|
            0 <= i < rows.len() && (#[trigger] rows[i]).id == id,
        row_with_id(rows, id) matches Some(r) ==> r.id == id && rows.contains(r),
    decreases rows.len(),
{
    if rows.len() > 0 {
        let front = rows.drop_last();
        row_with_an_id_has_it(front, id);
        if row_with_id(front, id) is Some {
            let r = row_with_id(front, id)->0;
            let i = choose|i: int| 0 <= i < front.len() && front[i] == r;
            assert(rows[i] == r);
        } else if rows.last().id == id {
            assert(rows[rows.len() - 1].id == id);
        } else if exists|i: int| 0 <= i < rows.len() && (#[trigger] rows[i]).id == id {
            let i = choose|i: int| 0 <= i < rows.len() && (#[trigger] rows[i]).id == id;
            assert(front[i].id == id);
        }
    }
}

/// A manager gives a user who is there a role that the user does not have, with
/// the scope that goes with it; it is stored as it was sent, and told as it was
/// stored, once that is committed.
pub proof fn role_is_given_with_its_scope(
    user_id: i64,
    req: UserAddRoleRequest,
    current: CurrentUser,
    f: AddRoleFacts,
    n: Next<UserAsk, UserRoleOut>,
)
    requires
        adds_role(user_id, req, current, f, n),
    ensures
        ({
            let manager = current.roles@.contains(Role::Manager);
            &&& !manager ==> n.is_refused(ErrorCode::Forbidden)
            &&& manager && f.begun && absent(f.user) ==> n.is_refused(ErrorCode::BizUserNotFound)
            &&& manager && f.begun && present(f.user) && req.role is ShelfAccount && !(
            req.scope_type is Some && req.scope_type->0@ == "shelf"@ && req.scope_id is Some)
                ==> n.is_refused(ErrorCode::ValidationError)
            &&& manager && f.begun && present(f.user) && !(req.role is ShelfAccount) && (
            req.scope_type is Some || req.scope_id is Some) ==> n.is_refused(
                ErrorCode::ValidationError,
            )
            &&& manager && f.begun && present(f.user) && req.role is ShelfAccount
                && req.scope_type is Some && req.scope_type->0@ == "shelf"@ && req.scope_id is Some
                && f.shelf is Some && !scope_goes_with_role(req, f) ==> n.is_refused(
                ErrorCode::NotFound,
            )
            &&& n matches Next::Ask(a) ==> manager && match a {
                UserAsk::Begin => !f.begun,
                UserAsk::UserById { id } => id == user_id && f.user is None,
                UserAsk::ShelfById { id } => req.role is ShelfAccount && req.scope_id == Some(id)
                    && f.shelf is None,
                UserAsk::RoleExists { user_id: u, role, scope_type, scope_id } => {
                    &&& u == user_id && role@ == role_name(req.role)@ && scope_type
                        == req.scope_type && scope_id == req.scope_id
                    &&& scope_goes_with_role(req, f) && f.exists is None
                },
                UserAsk::NewId => f.id is None && f.exists == Some(false),
                UserAsk::Now => f.now is None && f.exists == Some(false),
                UserAsk::CreateRole { insert } => {
                    &&& scope_goes_with_role(req, f) && f.exists == Some(false) && f.created is None
                    &&& f.id == Some(insert.id) && insert.user_id == user_id && insert.role@
                        == role_name(req.role)@
                    &&& insert.scope_type == req.scope_type && insert.scope_id == req.scope_id
                    &&& f.now == Some(insert.created_at) && insert.created_by == Some(current.id)
                },
                UserAsk::RolesOfUser { user_id: u } => u == user_id && f.roles is None
                    && f.created is Some && f.created->0 is Ok,
                UserAsk::Commit => !f.committed && f.created is Some && f.created->0 is Ok,
                _ => false,
            }
            &&& manager && f.begun && present(f.user) && scope_goes_with_role(req, f) && f.exists
                == Some(true) ==> n.is_refused(ErrorCode::BizRoleDuplicate)
            &&& n matches Next::Done(Ok(o)) ==> {
                &&& manager && scope_goes_with_role(req, f) && f.committed && f.exists == Some(
                    false,
                )
                &&& f.id == Some(o.id)
                &&& exists|i: int|
                    0 <= i < f.roles->0@.len() && role_has_data_of(o, #[trigger] f.roles->0@[i])
            }
            &&& manager && f.begun && present(f.user) && scope_goes_with_role(req, f) && f.exists
                == Some(false) && f.id is Some && f.now is Some && f.created is Some ==> {
                &&& f.created->0 is Err && f.created->0->Err_0.sqlstate is Some
                    && f.created->0->Err_0.sqlstate->0@ == "23505"@ ==> n.is_refused(
                    ErrorCode::BizRoleDuplicate,
                )
                &&& f.created->0 is Err && !(f.created->0->Err_0.sqlstate is Some
                    && f.created->0->Err_0.sqlstate->0@ == "23505"@) ==> (n matches Next::Done(Err(e))
                    && e == f.created->0->Err_0.error)
                &&& f.created->0 is Ok && f.roles is Some && f.committed && (exists|i: int|
                    0 <= i < f.roles->0@.len() && (#[trigger] f.roles->0@[i]).id == f.id->0)
                    ==> n.is_ok()
            }
        }),
{
    if f.id is Some && f.roles is Some {
        let rows = f.roles->0@;
        row_with_an_id_has_it(rows, f.id->0);
        if let Next::Done(Ok(o)) = n {
            let r = row_with_id(rows, f.id->0)->0;
            let i = choose|i: int| 0 <= i < rows.len() && rows[i] == r;
            assert(role_has_data_of(o, rows[i]));
        }
    }
}

/// A manager takes a role from the user who has it, at the version that was read.
pub proof fn role_is_taken_from_its_user(
    user_id: i64,
    role_id: i64,
    current: CurrentUser,
    f: RemoveRoleFacts,
    n: Next<UserAsk, ()>,
)
    requires
        removes_role(user_id, role_id, current, f, n),
    ensures
        n.is_refused(ErrorCode::Forbidden) <==> !current.roles@.contains(Role::Manager),
        n.is_refused(ErrorCode::BizUserNotFound) <==> current.roles@.contains(Role::Manager)
            && f.begun && absent(f.user),
        n.is_refused(ErrorCode::BizRoleNotFound) <==> current.roles@.contains(Role::Manager)
            && f.begun && present(f.user) && (absent(f.role) || (present(f.role)
            && f.role->0->0.user_id != user_id)),
        n matches Next::Ask(a) ==> match a {
            UserAsk::Begin => !f.begun,
            UserAsk::UserById { id } => id == user_id && f.user is None,
            UserAsk::RoleById { role_id: r } => r == role_id && f.role is None,
            UserAsk::Now => f.now is None,
            UserAsk::SoftDeleteRole { id, version, when, by } => {
                &&& f.affected is None && present(f.role) && f.role->0->0.user_id == user_id
                &&& id == f.role->0->0.id && version == f.role->0->0.version && f.now == Some(when)
                    && by == Some(current.id)
            },
            UserAsk::Commit => !f.committed && f.affected is Some && f.affected->0 > 0,
            _ => false,
        },
        n.is_refused(ErrorCode::VersionConflict) ==> f.affected == Some(0u64),
        n.is_ok() <==> current.roles@.contains(Role::Manager) && f.begun && present(f.user)
            && present(f.role) && f.role->0->0.user_id == user_id && f.now is Some && f.affected
            is Some && f.affected->0 > 0 && f.committed,
{
}

// ---------------------------------------------------------------------------
// The caller
// ---------------------------------------------------------------------------

/// These are the names of the roles, in order.
pub open spec fn are_names_of(names: Seq<String>, roles: Seq<Role>) -> bool {
    &&& names.len() == roles.len()
    &&& forall|i: int| 0 <= i < roles.len() ==> (#[trigger] names[i])@ == role_name(roles[i])@
}

/// The menus of some roles are asked for by the names of all of them, and shown
/// as a tree.
pub proof fn menus_are_of_the_roles(
    roles: Seq<Role>,
    menus: Option<Vec<Menu>>,
    n: Next<UserAsk, Vec<MenuNodeOut>>,
)
    requires
        shows_menus(roles, menus, n),
    ensures
        n matches Next::Ask(a) ==> menus is None && (a matches UserAsk::MenusOfRoles { roles: names }
            && are_names_of(names@, roles)),
        n.is_ok() <==> menus is Some,
        n matches Next::Done(Ok(out)) ==> shows_nodes(out@, menu_tree(menus->0@)),
{
}

/// Callers are told of themselves: their own data, the names of their roles, the
/// shelves that they are bound to, and the tree of the menus of their roles.
pub proof fn callers_are_told_of_themselves(
    current: CurrentUser,
    f: CurrentUserFacts,
    n: Next<UserAsk, CurrentUserOut>,
)
    requires
        describes_caller(current, f, n),
    ensures
        n.is_refused(ErrorCode::BizUserNotFound) <==> absent(f.user),
        n matches Next::Done(Err(e)) ==> e.code is BizUserNotFound,
        n matches Next::Ask(a) ==> match a {
            UserAsk::UserById { id } => id == current.id && f.user is None,
            UserAsk::MenusOfRoles { roles } => f.menus is None && are_names_of(
                roles@,
                current.roles@,
            ),
            _ => false,
        },
        n.is_ok() <==> present(f.user) && f.menus is Some,
        n matches Next::Done(Ok(o)) ==> {
            let u = f.user->0->0;
            &&& o.id == u.id && o.username == u.username && o.full_name == u.full_name
                && o.is_active == u.is_active
            &&& are_names_of(o.roles@, current.roles@)
            &&& o.shelf_ids@.len() == current.shelf_ids@.len()
            &&& forall|i: int|
                0 <= i < o.shelf_ids@.len() ==> (#[trigger] o.shelf_ids@[i])@ == decimal(
                    current.shelf_ids@[i] as int,
                )
            &&& shows_nodes(o.menus@, menu_tree(f.menus->0@))
        },
{
}

// ---------------------------------------------------------------------------
// What a refusal names
// ---------------------------------------------------------------------------

/// A refused removal of a role names the user, and the role.
pub proof fn refused_role_removals_name_role_and_user(
    user_id: i64,
    role_id: i64,
    current: CurrentUser,
    f: RemoveRoleFacts,
    n: Next<UserAsk, ()>,
)
    requires
        removes_role(user_id, role_id, current, f, n),
    ensures
        n.is_refused(ErrorCode::BizUserNotFound) ==> n.fails(
            ErrorCode::BizUserNotFound,
            "user "@ + decimal(user_id as int) + " not found"@,
        ),
        n.is_refused(ErrorCode::BizRoleNotFound) ==> n.fails(
            ErrorCode::BizRoleNotFound,
            "role "@ + decimal(role_id as int) + " not found for user "@ + decimal(user_id as int),
        ),
        n.is_refused(ErrorCode::VersionConflict) ==> n.fails(
            ErrorCode::VersionConflict,
            "数据已被他人修改，请刷新后重试"@,
        ),
{
}

/// A role that the user has already is named with its scope.
pub proof fn refused_roles_are_named_with_their_scope(
    user_id: i64,
    req: UserAddRoleRequest,
    current: CurrentUser,
    f: AddRoleFacts,
    n: Next<UserAsk, UserRoleOut>,
)
    requires
        adds_role(user_id, req, current, f, n),
    ensures
        n.is_refused(ErrorCode::BizRoleDuplicate) && f.exists == Some(true) ==> n.fails(
            ErrorCode::BizRoleDuplicate,
            "role "@ + role_name(req.role)@ + " (scope="@ + (match req.scope_type {
                Some(t) => t@,
                None => "null"@,
            }) + "/"@ + (match req.scope_id {
                Some(id) => decimal(id as int),
                None => "null"@,
            }) + ") already assigned to this user"@,
        ),
{
}

} // verus!
