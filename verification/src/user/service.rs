//! The endpoints on users.
use super::dto::{
    CurrentUserOut, MenuNodeOut, UserAddRoleRequest, UserCreateRequest, UserListOut, UserListQuery,
    UserOut, UserRoleOut, UserUpdateRequest,
};
use super::menu::{build_menu_tree, menu_tree, shows_nodes};
use super::model::{Menu, Shelf, User, UserRole};
use super::repo::{UserInsert, UserPatch, UserRoleInsert, UserRoleRow};
use crate::auth::{forbidden_text, CurrentUser, Role};
use crate::calendar::DateTime;
use crate::error::{
    conflict_text, unique_violation, version_conflict, AppError, DbFault, ErrorCode, Problem,
};
use crate::flow::Next;
use crate::paging::{limit_of, offset_of, page_limit, page_offset};
use crate::text::{
    self, copy_opt, decimal, id_text, join3, keep_non_blank, non_blank, opt_view, same, trim,
    trimmed, unicode_lowercase,
};
use vstd::prelude::*;
use vstd::string::*;

verus! {

/// The password that a reset leaves a user with.
pub open spec fn reset_password() -> Seq<char> {
    "changeme"@
}

/// What an endpoint on users asks for.
pub enum UserAsk {
    /// A transaction. Without a commit nothing that is written in it lasts.
    Begin,
    Commit,
    UserById { id: i64 },
    /// The user that is about to be changed.
    UserToChange { id: i64 },
    UserByUsername { username: String },
    Users { like: Option<String>, is_active: Option<bool>, limit: i64, offset: i64 },
    CountUsers { like: Option<String>, is_active: Option<bool> },
    RolesOfUser { user_id: i64 },
    RoleById { role_id: i64 },
    /// Whether the user has this role with this scope.
    RoleExists {
        user_id: i64,
        role: &'static str,
        scope_type: Option<String>,
        scope_id: Option<i64>,
    },
    NewId,
    Now,
    /// The time once a write is done.
    NowAfterWrite,
    HashPassword { password: String },
    VerifyPassword { password: String, hash: String },
    CreateUser { insert: UserInsert },
    /// Changing a user of this version; the number of rows that changed.
    UpdateUser { id: i64, version: i32, patch: UserPatch, when: DateTime, by: Option<i64> },
    SoftDeleteUser { id: i64, version: i32, when: DateTime, by: Option<i64> },
    /// Storing a new password and making every refresh token void.
    RotatePassword {
        id: i64,
        version: i32,
        password_hash: String,
        when: DateTime,
        by: Option<i64>,
    },
    CreateRole { insert: UserRoleInsert },
    SoftDeleteRole { id: i64, version: i32, when: DateTime, by: Option<i64> },
    ShelfById { id: i64 },
    /// The active menus that these roles see.
    MenusOfRoles { roles: Vec<String> },
    /// Ending the sessions of a user; a failure changes nothing.
    ClearSessions { user_id: i64 },
}

// ---------------------------------------------------------------------------
// Small parts
// ---------------------------------------------------------------------------

/// The name of a role.
pub open spec fn role_name(role: Role) -> &'static str {
    match role {
        Role::Manager => "MANAGER",
        Role::Clerk => "CLERK",
        Role::Inspector => "INSPECTOR",
        Role::CncProgrammer => "CNC_PROGRAMMER",
        Role::ShelfAccount => "SHELF_ACCOUNT",
    }
}

/// The name of a role.
pub fn role_as_str(role: Role) -> (r: &'static str)
    ensures
        r == role_name(role),
{
    match role {
        Role::Manager => "MANAGER",
        Role::Clerk => "CLERK",
        Role::Inspector => "INSPECTOR",
        Role::CncProgrammer => "CNC_PROGRAMMER",
        Role::ShelfAccount => "SHELF_ACCOUNT",
    }
}

/// The message about a user that is not there.
pub open spec fn no_user_text(user_id: i64) -> Seq<char> {
    "user "@ + decimal(user_id as int) + " not found"@
}

/// The error about a user that is not there.
pub fn user_not_found(user_id: i64) -> (r: AppError)
    ensures
        r.says(ErrorCode::BizUserNotFound, no_user_text(user_id)),
{
    let message = join3("user ", id_text(user_id).as_str(), " not found");
    AppError::biz(ErrorCode::BizUserNotFound, message.as_str())
}

/// A text without white space at its ends, where anything is left of it.
pub fn trimmed_or_none(v: &str) -> (r: Option<String>)
    ensures
        opt_view(r) == non_blank(Some(v@)),
{
    let t = trim(v);
    if t.is_empty() {
        None
    } else {
        Some(t.to_owned())
    }
}

/// A role as the client gets it: its scope's id as text.
pub open spec fn shows_role(o: UserRoleOut, r: UserRoleRow) -> bool {
    &&& opt_view(o.scope_id) == match r.scope_id {
        Some(id) => Some(decimal(id as int)),
        None => None,
    }
    &&& o == UserRoleOut {
        id: r.id,
        version: r.version,
        role: r.role,
        scope_type: r.scope_type,
        scope_id: o.scope_id,
        shelf_code: r.shelf_code,
        shelf_name: r.shelf_name,
    }
}

/// A role as the client gets it.
pub fn to_role_out(r: &UserRoleRow) -> (o: UserRoleOut)
    ensures
        shows_role(o, *r),
{
    let scope_id: Option<String> = match r.scope_id {
        Some(id) => Some(id_text(id)),
        None => None,
    };
    UserRoleOut {
        id: r.id,
        version: r.version,
        role: r.role.clone(),
        scope_type: copy_opt(&r.scope_type),
        scope_id,
        shelf_code: copy_opt(&r.shelf_code),
        shelf_name: copy_opt(&r.shelf_name),
    }
}

/// Roles as the client gets them, one by one.
pub open spec fn shows_roles(os: Seq<UserRoleOut>, rs: Seq<UserRoleRow>) -> bool {
    os.len() == rs.len() && forall|i: int|
        0 <= i < rs.len() ==> shows_role(#[trigger] os[i], rs[i])
}

fn to_roles_out(rows: &Vec<UserRoleRow>) -> (r: Vec<UserRoleOut>)
    ensures
        shows_roles(r@, rows@),
{
    let mut out: Vec<UserRoleOut> = Vec::new();
    let mut i: usize = 0;
    while i < rows.len()
        invariant
            i <= rows@.len(),
            out@.len() == i,
            forall|j: int| 0 <= j < i ==> shows_role(#[trigger] out@[j], rows@[j]),
        decreases rows@.len() - i,
    {
        out.push(to_role_out(&rows[i]));
        i = i + 1;
    }
    out
}

/// A user as the client gets it: without the password's hash, with the roles.
pub open spec fn shows_user(o: UserOut, u: User, roles: Seq<UserRoleRow>) -> bool {
    &&& o.id == u.id
    &&& o.version == u.version
    &&& o.username == u.username
    &&& o.full_name == u.full_name
    &&& o.phone == u.phone
    &&& o.is_active == u.is_active
    &&& o.last_login_at == u.last_login_at
    &&& o.created_at == u.created_at
    &&& o.updated_at == u.updated_at
    &&& shows_roles(o.roles@, roles)
}

/// A user as the client gets it.
pub fn assemble_user_out(u: &User, roles: &Vec<UserRoleRow>) -> (o: UserOut)
    ensures
        shows_user(o, *u, roles@),
{
    UserOut {
        id: u.id,
        version: u.version,
        username: u.username.clone(),
        full_name: u.full_name.clone(),
        phone: copy_opt(&u.phone),
        is_active: u.is_active,
        last_login_at: u.last_login_at,
        created_at: u.created_at,
        updated_at: u.updated_at,
        roles: to_roles_out(roles),
    }
}

/// The error of a refused insert: `code` and `message` where a unique index was
/// violated, else what the database says.
pub open spec fn insert_problem(fault: DbFault, code: ErrorCode, message: Seq<char>, e: AppError) -> bool {
    if fault.has_state(unique_violation()) {
        e.says(code, message)
    } else {
        e == fault.error
    }
}

/// The error of a refused insert of a user.
pub fn map_duplicate_username(fault: &DbFault) -> (r: AppError)
    ensures
        insert_problem(
            *fault,
            ErrorCode::BizDuplicateUsername,
            "username already exists"@,
            r,
        ),
{
    if fault.is_state("23505") {
        AppError::biz(ErrorCode::BizDuplicateUsername, "username already exists")
    } else {
        fault.error.copy()
    }
}

/// The error of a refused insert of a role.
pub fn map_duplicate_role(fault: &DbFault) -> (r: AppError)
    ensures
        insert_problem(
            *fault,
            ErrorCode::BizRoleDuplicate,
            "role already assigned to this user"@,
            r,
        ),
{
    if fault.is_state("23505") {
        AppError::biz(ErrorCode::BizRoleDuplicate, "role already assigned to this user")
    } else {
        fault.error.copy()
    }
}

// ---------------------------------------------------------------------------
// The service
// ---------------------------------------------------------------------------

/// The endpoints on users, with what the surrounding program runs them on: where
/// transactions, ids and sessions come from.
pub struct UserService<P, G, S> {
    pub uow_provider: P,
    pub snowflake: G,
    pub session: S,
}

/// What is known while users are listed. The roles are those of the first users,
/// in order.
pub struct ListUsersFacts {
    pub begun: bool,
    pub rows: Option<Vec<User>>,
    pub total: Option<i64>,
    pub roles: Vec<Vec<UserRoleRow>>,
}

/// How users are listed.
pub open spec fn lists_users(
    query: UserListQuery,
    current: CurrentUser,
    f: ListUsersFacts,
    n: Next<UserAsk, UserListOut>,
) -> bool {
    let like = non_blank(opt_view(query.username_like));
    let limit = page_limit(query.limit);
    let offset = page_offset(query.offset);
    if !current.is(Role::Manager) {
        n.fails(ErrorCode::Forbidden, forbidden_text())
    } else if !f.begun {
        n.asks(UserAsk::Begin)
    } else {
        match (f.rows, f.total) {
            (None, _) => n matches Next::Ask(
                UserAsk::Users { like: l, is_active, limit: lim, offset: off },
            ) && opt_view(l) == like && is_active == query.is_active && lim == limit && off
                == offset,
            (Some(_), None) => n matches Next::Ask(UserAsk::CountUsers { like: l, is_active })
                && opt_view(l) == like && is_active == query.is_active,
            (Some(rows), Some(total)) => if f.roles@.len() < rows@.len() {
                n.asks(UserAsk::RolesOfUser { user_id: rows@[f.roles@.len() as int].id })
            } else {
                &&& n matches Next::Done(Ok(out))
                &&& out.total == total
                &&& out.limit == limit
                &&& out.offset == offset
                &&& out.items@.len() == rows@.len()
                &&& forall|i: int|
                    0 <= i < rows@.len() ==> shows_user(
                        #[trigger] out.items@[i],
                        rows@[i],
                        f.roles@[i]@,
                    )
            },
        }
    }
}

/// What is known while one user is read.
pub struct GetUserFacts {
    pub begun: bool,
    pub user: Option<Option<User>>,
    pub roles: Option<Vec<UserRoleRow>>,
}

/// How one user is read.
pub open spec fn gets_user(
    user_id: i64,
    current: CurrentUser,
    f: GetUserFacts,
    n: Next<UserAsk, UserOut>,
) -> bool {
    if !current.is(Role::Manager) {
        n.fails(ErrorCode::Forbidden, forbidden_text())
    } else if !f.begun {
        n.asks(UserAsk::Begin)
    } else {
        match (f.user, f.roles) {
            (None, _) => n.asks(UserAsk::UserById { id: user_id }),
            (Some(None), _) => n.fails(ErrorCode::BizUserNotFound, no_user_text(user_id)),
            (Some(Some(u)), None) => n.asks(UserAsk::RolesOfUser { user_id: u.id }),
            (Some(Some(u)), Some(roles)) => n matches Next::Done(Ok(out)) && shows_user(
                out,
                u,
                roles@,
            ),
        }
    }
}

/// What is known while a user is created.
pub struct CreateUserFacts {
    pub begun: bool,
    /// The user who has the name already.
    pub namesake: Option<Option<User>>,
    pub id: Option<i64>,
    pub password_hash: Option<String>,
    pub now: Option<DateTime>,
    pub created: Option<Result<(), DbFault>>,
    pub user: Option<Option<User>>,
    pub roles: Option<Vec<UserRoleRow>>,
    pub committed: bool,
}

/// The name that a user is stored under.
pub open spec fn stored_name(username: Seq<char>) -> Seq<char> {
    unicode_lowercase(trimmed(username))
}

/// The user to be stored.
pub open spec fn inserts_user(
    insert: UserInsert,
    req: UserCreateRequest,
    id: i64,
    hash: String,
    now: DateTime,
    by: i64,
) -> bool {
    &&& insert.id == id
    &&& insert.username@ == stored_name(req.username@)
    &&& insert.password_hash == hash
    &&& insert.full_name@ == trimmed(req.full_name@)
    &&& opt_view(insert.phone) == non_blank(opt_view(req.phone))
    &&& insert.is_active
    &&& insert.created_at == now
    &&& insert.created_by == Some(by)
}

/// How a user is written and read back, once the request is in order.
pub open spec fn writes_user(
    req: UserCreateRequest,
    by: i64,
    f: CreateUserFacts,
    n: Next<UserAsk, UserOut>,
) -> bool {
    match (f.id, f.password_hash, f.now) {
        (None, _, _) => n.asks(UserAsk::NewId),
        (Some(_), None, _) => n.asks(UserAsk::HashPassword { password: req.password }),
        (Some(_), Some(_), None) => n.asks(UserAsk::Now),
        (Some(id), Some(hash), Some(now)) => match (f.created, f.user, f.roles) {
            (None, _, _) => n matches Next::Ask(UserAsk::CreateUser { insert }) && inserts_user(
                insert,
                req,
                id,
                hash,
                now,
                by,
            ),
            (Some(Err(fault)), _, _) => n matches Next::Done(Err(e)) && insert_problem(
                fault,
                ErrorCode::BizDuplicateUsername,
                "username already exists"@,
                e,
            ),
            (Some(Ok(())), None, _) => n.asks(UserAsk::UserById { id }),
            (Some(Ok(())), Some(None), _) => n.fails(
                ErrorCode::Internal,
                "创建后回读用户失败"@,
            ),
            (Some(Ok(())), Some(Some(u)), None) => n.asks(UserAsk::RolesOfUser { user_id: u.id }),
            (Some(Ok(())), Some(Some(u)), Some(roles)) => if !f.committed {
                n.asks(UserAsk::Commit)
            } else {
                n matches Next::Done(Ok(out)) && shows_user(out, u, roles@)
            },
        },
    }
}

/// How a user is created.
pub open spec fn creates_user(
    req: UserCreateRequest,
    current: CurrentUser,
    f: CreateUserFacts,
    n: Next<UserAsk, UserOut>,
) -> bool {
    let name = stored_name(req.username@);
    if !current.is(Role::Manager) {
        n.fails(ErrorCode::Forbidden, forbidden_text())
    } else if !f.begun {
        n.asks(UserAsk::Begin)
    } else if name.len() == 0 {
        n.fails(ErrorCode::ValidationError, "username 不能为空"@)
    } else if req.password@.len() == 0 {
        n.fails(ErrorCode::ValidationError, "password 不能为空"@)
    } else {
        match f.namesake {
            None => n matches Next::Ask(UserAsk::UserByUsername { username }) && username@ == name,
            Some(Some(_)) => n.fails(
                ErrorCode::BizDuplicateUsername,
                "username '"@ + name + "' already exists"@,
            ),
            Some(None) => if trimmed(req.full_name@).len() == 0 {
                n.fails(ErrorCode::ValidationError, "full_name 不能为空"@)
            } else {
                writes_user(req, current.id, f, n)
            },
        }
    }
}

/// What is known while a user is changed.
pub struct UpdateUserFacts {
    pub begun: bool,
    pub user: Option<Option<User>>,
    pub password_hash: Option<String>,
    pub now: Option<DateTime>,
    pub affected: Option<u64>,
    pub updated: Option<Option<User>>,
    pub roles: Option<Vec<UserRoleRow>>,
    pub committed: bool,
}

/// What is wrong with a change of a user.
pub open spec fn update_problem(req: UserUpdateRequest) -> Option<Problem> {
    if req.full_name matches Some(v) && trimmed(v@).len() == 0 {
        Some((ErrorCode::ValidationError, "full_name 不能为空"@))
    } else if req.password matches Some(p) && p@.len() == 0 {
        Some((ErrorCode::ValidationError, "password 不能为空"@))
    } else {
        None
    }
}

/// What of a user is changed.
pub open spec fn patches_user(
    patch: UserPatch,
    req: UserUpdateRequest,
    hash: Option<String>,
) -> bool {
    &&& opt_view(patch.full_name) == match req.full_name {
        Some(v) => Some(trimmed(v@)),
        None => None,
    }
    &&& patch.set_phone == (req.phone is Some)
    &&& opt_view(patch.phone) == non_blank(opt_view(req.phone))
    &&& patch.password_hash == hash
    &&& patch.is_active == req.is_active
}

/// The hash to be stored: none where the password stays. `None` while one is
/// still to be made.
pub open spec fn hash_to_store(
    password: Option<String>,
    made: Option<String>,
) -> Option<Option<String>> {
    match (password, made) {
        (None, _) => Some(None),
        (Some(_), None) => None,
        (Some(_), Some(h)) => Some(Some(h)),
    }
}

/// How a changed user is read back and the change made to last.
pub open spec fn confirms_user(
    user_id: i64,
    affected: Option<u64>,
    updated: Option<Option<User>>,
    roles: Option<Vec<UserRoleRow>>,
    committed: bool,
    n: Next<UserAsk, UserOut>,
) -> bool {
    if affected == Some(0u64) {
        n.fails(ErrorCode::VersionConflict, conflict_text())
    } else {
        match (updated, roles) {
            (None, _) => n.asks(UserAsk::UserById { id: user_id }),
            (Some(None), _) => n.fails(ErrorCode::BizUserNotFound, no_user_text(user_id)),
            (Some(Some(u)), None) => n.asks(UserAsk::RolesOfUser { user_id: u.id }),
            (Some(Some(u)), Some(rs)) => if !committed {
                n.asks(UserAsk::Commit)
            } else {
                n matches Next::Done(Ok(out)) && shows_user(out, u, rs@)
            },
        }
    }
}

/// How a user is changed.
pub open spec fn updates_user(
    user_id: i64,
    req: UserUpdateRequest,
    current: CurrentUser,
    f: UpdateUserFacts,
    n: Next<UserAsk, UserOut>,
) -> bool {
    if !current.is(Role::Manager) {
        n.fails(ErrorCode::Forbidden, forbidden_text())
    } else if !f.begun {
        n.asks(UserAsk::Begin)
    } else {
        match f.user {
            None => n.asks(UserAsk::UserToChange { id: user_id }),
            Some(None) => n.fails(ErrorCode::BizUserNotFound, no_user_text(user_id)),
            Some(Some(u)) => match update_problem(req) {
                Some(p) => n.fails(p.0, p.1),
                None => match (hash_to_store(req.password, f.password_hash), f.now, f.affected) {
                    (None, _, _) => n.asks(UserAsk::HashPassword { password: req.password->0 }),
                    (Some(_), None, _) => n.asks(UserAsk::Now),
                    (Some(hash), Some(now), None) => n matches Next::Ask(
                        UserAsk::UpdateUser { id, version, patch, when, by },
                    ) && id == u.id && version == u.version && when == now && by == Some(
                        current.id,
                    ) && patches_user(patch, req, hash),
                    (Some(_), Some(_), Some(_)) => confirms_user(
                        user_id,
                        f.affected,
                        f.updated,
                        f.roles,
                        f.committed,
                        n,
                    ),
                },
            },
        }
    }
}

/// What is known while a user is deactivated.
pub struct DeactivateUserFacts {
    pub begun: bool,
    pub user: Option<Option<User>>,
    pub when: Option<DateTime>,
    pub affected: Option<u64>,
    pub roles: Option<Vec<UserRoleRow>>,
    pub now: Option<DateTime>,
    pub committed: bool,
}

/// A user that was deactivated, one version on.
pub open spec fn deactivated(u: User, now: DateTime, by: i64) -> User {
    User {
        is_active: false,
        deleted_at: Some(now),
        updated_at: now,
        updated_by: Some(by),
        version: (u.version + 1) as i32,
        ..u
    }
}

/// How a user is deactivated.
pub open spec fn deactivates_user(
    user_id: i64,
    current: CurrentUser,
    f: DeactivateUserFacts,
    n: Next<UserAsk, UserOut>,
) -> bool {
    if !current.is(Role::Manager) {
        n.fails(ErrorCode::Forbidden, forbidden_text())
    } else if !f.begun {
        n.asks(UserAsk::Begin)
    } else {
        match (f.user, f.when, f.affected) {
            (None, _, _) => n.asks(UserAsk::UserById { id: user_id }),
            (Some(None), _, _) => n.fails(ErrorCode::BizUserNotFound, no_user_text(user_id)),
            (Some(Some(_)), None, _) => n.asks(UserAsk::Now),
            (Some(Some(u)), Some(when), None) => n.asks(
                UserAsk::SoftDeleteUser {
                    id: u.id,
                    version: u.version,
                    when,
                    by: Some(current.id),
                },
            ),
            (Some(Some(u)), Some(_), Some(rows)) => if rows == 0 {
                n.fails(ErrorCode::VersionConflict, conflict_text())
            } else {
                match (f.roles, f.now) {
                    (None, _) => n.asks(UserAsk::RolesOfUser { user_id: u.id }),
                    (Some(_), None) => n.asks(UserAsk::NowAfterWrite),
                    (Some(roles), Some(now)) => if !f.committed {
                        n.asks(UserAsk::Commit)
                    } else {
                        n matches Next::Done(Ok(out)) && shows_user(
                            out,
                            deactivated(u, now, current.id),
                            roles@,
                        )
                    },
                }
            },
        }
    }
}

/// What is known while a user changes a password.
pub struct ChangePasswordFacts {
    pub begun: bool,
    pub user: Option<Option<User>>,
    pub verified: Option<bool>,
    pub password_hash: Option<String>,
    pub now: Option<DateTime>,
    pub affected: Option<u64>,
    pub committed: bool,
    pub cleared: bool,
}

/// How a new password is stored for a user of whom the old one was checked.
pub open spec fn stores_password(
    u: User,
    user_id: i64,
    new_password: Seq<char>,
    by: i64,
    f: ChangePasswordFacts,
    n: Next<UserAsk, ()>,
) -> bool {
    match (f.password_hash, f.now, f.affected) {
        (None, _, _) => n matches Next::Ask(UserAsk::HashPassword { password }) && password@
            == new_password,
        (Some(_), None, _) => n.asks(UserAsk::Now),
        (Some(hash), Some(now), None) => n.asks(
            UserAsk::RotatePassword {
                id: u.id,
                version: u.version,
                password_hash: hash,
                when: now,
                by: Some(by),
            },
        ),
        (Some(_), Some(_), Some(rows)) => if rows == 0 {
            n.fails(ErrorCode::VersionConflict, conflict_text())
        } else if !f.committed {
            n.asks(UserAsk::Commit)
        } else if !f.cleared {
            n.asks(UserAsk::ClearSessions { user_id })
        } else {
            n.succeeds(())
        },
    }
}

/// How a password is changed by who knows the old one.
pub open spec fn changes_password(
    user_id: i64,
    old_password: Seq<char>,
    new_password: Seq<char>,
    current: CurrentUser,
    f: ChangePasswordFacts,
    n: Next<UserAsk, ()>,
) -> bool {
    if user_id != current.id && !current.is(Role::Manager) {
        n.fails(ErrorCode::Forbidden, "只能修改本人密码"@)
    } else if new_password.len() == 0 {
        n.fails(ErrorCode::ValidationError, "new_password 不能为空"@)
    } else if !f.begun {
        n.asks(UserAsk::Begin)
    } else {
        match f.user {
            None => n.asks(UserAsk::UserById { id: user_id }),
            Some(None) => n.fails(ErrorCode::BizUserNotFound, no_user_text(user_id)),
            Some(Some(u)) => if !u.is_active {
                n.fails(ErrorCode::BizUserNotFound, no_user_text(user_id))
            } else {
                match f.verified {
                    None => n matches Next::Ask(UserAsk::VerifyPassword { password, hash })
                        && password@ == old_password && hash == u.password_hash,
                    Some(false) => n.fails(ErrorCode::BizOldPasswordMismatch, "旧密码不正确"@),
                    Some(true) => stores_password(u, user_id, new_password, current.id, f, n),
                }
            },
        }
    }
}

/// What is known while a password is reset.
pub struct ResetPasswordFacts {
    pub begun: bool,
    pub user: Option<Option<User>>,
    pub password_hash: Option<String>,
    pub now: Option<DateTime>,
    pub affected: Option<u64>,
    pub updated: Option<Option<User>>,
    pub roles: Option<Vec<UserRoleRow>>,
    pub committed: bool,
    pub cleared: bool,
}

/// How a password is reset.
pub open spec fn resets_password(
    user_id: i64,
    current: CurrentUser,
    f: ResetPasswordFacts,
    n: Next<UserAsk, UserOut>,
) -> bool {
    if !current.is(Role::Manager) {
        n.fails(ErrorCode::Forbidden, forbidden_text())
    } else if !f.begun {
        n.asks(UserAsk::Begin)
    } else {
        match (f.user, f.password_hash, f.now, f.affected) {
            (None, _, _, _) => n.asks(UserAsk::UserToChange { id: user_id }),
            (Some(None), _, _, _) => n.fails(ErrorCode::BizUserNotFound, no_user_text(user_id)),
            (Some(Some(_)), None, _, _) => n matches Next::Ask(UserAsk::HashPassword { password })
                && password@ == reset_password(),
            (Some(Some(_)), Some(_), None, _) => n.asks(UserAsk::Now),
            (Some(Some(u)), Some(hash), Some(now), None) => n.asks(
                UserAsk::RotatePassword {
                    id: u.id,
                    version: u.version,
                    password_hash: hash,
                    when: now,
                    by: Some(current.id),
                },
            ),
            (Some(Some(_)), Some(_), Some(_), Some(_)) => if f.committed && !f.cleared
                && f.affected != Some(0u64) && (f.updated matches Some(Some(_))) && f.roles is Some {
                n.asks(UserAsk::ClearSessions { user_id })
            } else {
                confirms_user(user_id, f.affected, f.updated, f.roles, f.committed, n)
            },
        }
    }
}

/// What is known while the roles of a user are listed.
pub struct ListRolesFacts {
    pub begun: bool,
    pub user: Option<Option<User>>,
    pub rows: Option<Vec<UserRoleRow>>,
}

/// How the roles of a user are listed.
pub open spec fn lists_roles(
    user_id: i64,
    current: CurrentUser,
    f: ListRolesFacts,
    n: Next<UserAsk, Vec<UserRoleOut>>,
) -> bool {
    if !current.is(Role::Manager) {
        n.fails(ErrorCode::Forbidden, forbidden_text())
    } else if !f.begun {
        n.asks(UserAsk::Begin)
    } else {
        match (f.user, f.rows) {
            (None, _) => n.asks(UserAsk::UserById { id: user_id }),
            (Some(None), _) => n.fails(ErrorCode::BizUserNotFound, no_user_text(user_id)),
            (Some(Some(_)), None) => n.asks(UserAsk::RolesOfUser { user_id }),
            (Some(Some(_)), Some(rows)) => n matches Next::Done(Ok(out)) && shows_roles(
                out@,
                rows@,
            ),
        }
    }
}

/// Shelves of these zones can be bound to a role.
pub open spec fn bindable_zone(zone: Seq<char>) -> bool {
    zone == "PRODUCTION"@ || zone == "INSPECTION"@
}

/// A request for a shelf account names a shelf.
pub open spec fn names_a_shelf(req: UserAddRoleRequest) -> bool {
    (req.scope_type matches Some(t) && t@ == "shelf"@) && req.scope_id is Some
}

/// What is wrong with the shelf that a role is to be bound to.
pub open spec fn shelf_problem(shelf_id: i64, shelf: Option<Shelf>) -> Option<Problem> {
    match shelf {
        None => Some((ErrorCode::NotFound, "shelf "@ + decimal(shelf_id as int) + " not found"@)),
        Some(s) => if !bindable_zone(s.zone@) {
            Some(
                (
                    ErrorCode::NotFound,
                    "shelf "@ + decimal(shelf_id as int) + " has invalid zone '"@ + s.zone@ + "'"@,
                ),
            )
        } else if !s.is_active {
            Some(
                (ErrorCode::NotFound, "shelf '"@ + s.code@ + "' is inactive; cannot bind"@),
            )
        } else {
            None
        },
    }
}

/// How far the check of a role's scope is.
pub enum ScopeCheck {
    /// The shelf has to be looked up.
    AskShelf(i64),
    Refused(Problem),
    Accepted,
}

/// The check of a role's scope: a shelf account is for a shelf that can be bound,
/// any other role takes no scope.
pub open spec fn scope_check(
    req: UserAddRoleRequest,
    shelf: Option<Option<Shelf>>,
) -> ScopeCheck {
    if req.role == Role::ShelfAccount {
        if !names_a_shelf(req) {
            ScopeCheck::Refused(
                (
                    ErrorCode::ValidationError,
                    "SHELF_ACCOUNT role requires scope_type='shelf' and scope_id"@,
                ),
            )
        } else {
            match shelf {
                None => ScopeCheck::AskShelf(req.scope_id->0),
                Some(s) => match shelf_problem(req.scope_id->0, s) {
                    Some(p) => ScopeCheck::Refused(p),
                    None => ScopeCheck::Accepted,
                },
            }
        }
    } else if req.scope_type is Some || req.scope_id is Some {
        ScopeCheck::Refused(
            (
                ErrorCode::ValidationError,
                "role "@ + role_name(req.role)@ + " does not accept scope"@,
            ),
        )
    } else {
        ScopeCheck::Accepted
    }
}

/// What is known while a role is added.
pub struct AddRoleFacts {
    pub begun: bool,
    pub user: Option<Option<User>>,
    pub shelf: Option<Option<Shelf>>,
    pub exists: Option<bool>,
    pub id: Option<i64>,
    pub now: Option<DateTime>,
    pub created: Option<Result<(), DbFault>>,
    pub roles: Option<Vec<UserRoleRow>>,
    pub committed: bool,
}

/// The message about a role that the user has already.
pub open spec fn duplicate_role_text(req: UserAddRoleRequest) -> Seq<char> {
    "role "@ + role_name(req.role)@ + " (scope="@ + match req.scope_type {
        Some(t) => t@,
        None => "null"@,
    } + "/"@ + match req.scope_id {
        Some(id) => decimal(id as int),
        None => "null"@,
    } + ") already assigned to this user"@
}

/// The role to be stored.
pub open spec fn inserts_role(
    insert: UserRoleInsert,
    user_id: i64,
    req: UserAddRoleRequest,
    id: i64,
    now: DateTime,
    by: i64,
) -> bool {
    &&& insert.id == id
    &&& insert.user_id == user_id
    &&& insert.role@ == role_name(req.role)@
    &&& insert.scope_type == req.scope_type
    &&& insert.scope_id == req.scope_id
    &&& insert.created_at == now
    &&& insert.created_by == Some(by)
}

/// The first row with an id.
pub open spec fn row_with_id(rows: Seq<UserRoleRow>, id: i64) -> Option<UserRoleRow>
    decreases rows.len(),
{
    if rows.len() == 0 {
        None
    } else {
        match row_with_id(rows.drop_last(), id) {
            Some(r) => Some(r),
            None => if rows.last().id == id {
                Some(rows.last())
            } else {
                None
            },
        }
    }
}

/// How a role is written and read back, once the request is in order.
pub open spec fn writes_role(
    user_id: i64,
    req: UserAddRoleRequest,
    by: i64,
    f: AddRoleFacts,
    n: Next<UserAsk, UserRoleOut>,
) -> bool {
    match (f.exists, f.id, f.now) {
        (None, _, _) => n.asks(
            UserAsk::RoleExists {
                user_id,
                role: role_name(req.role),
                scope_type: req.scope_type,
                scope_id: req.scope_id,
            },
        ),
        (Some(true), _, _) => n.fails(ErrorCode::BizRoleDuplicate, duplicate_role_text(req)),
        (Some(false), None, _) => n.asks(UserAsk::NewId),
        (Some(false), Some(_), None) => n.asks(UserAsk::Now),
        (Some(false), Some(id), Some(now)) => match (f.created, f.roles) {
            (None, _) => n matches Next::Ask(UserAsk::CreateRole { insert }) && inserts_role(
                insert,
                user_id,
                req,
                id,
                now,
                by,
            ),
            (Some(Err(fault)), _) => n matches Next::Done(Err(e)) && insert_problem(
                fault,
                ErrorCode::BizRoleDuplicate,
                "role already assigned to this user"@,
                e,
            ),
            (Some(Ok(())), None) => n.asks(UserAsk::RolesOfUser { user_id }),
            (Some(Ok(())), Some(rows)) => match row_with_id(rows@, id) {
                None => n.fails(ErrorCode::Internal, "创建后回读角色失败"@),
                Some(row) => if !f.committed {
                    n.asks(UserAsk::Commit)
                } else {
                    n matches Next::Done(Ok(out)) && shows_role(out, row)
                },
            },
        },
    }
}

/// How a role is added.
pub open spec fn adds_role(
    user_id: i64,
    req: UserAddRoleRequest,
    current: CurrentUser,
    f: AddRoleFacts,
    n: Next<UserAsk, UserRoleOut>,
) -> bool {
    if !current.is(Role::Manager) {
        n.fails(ErrorCode::Forbidden, forbidden_text())
    } else if !f.begun {
        n.asks(UserAsk::Begin)
    } else {
        match f.user {
            None => n.asks(UserAsk::UserById { id: user_id }),
            Some(None) => n.fails(ErrorCode::BizUserNotFound, no_user_text(user_id)),
            Some(Some(_)) => match scope_check(req, f.shelf) {
                ScopeCheck::AskShelf(id) => n.asks(UserAsk::ShelfById { id }),
                ScopeCheck::Refused(p) => n.fails(p.0, p.1),
                ScopeCheck::Accepted => writes_role(user_id, req, current.id, f, n),
            },
        }
    }
}

/// What is known while a role is removed.
pub struct RemoveRoleFacts {
    pub begun: bool,
    pub user: Option<Option<User>>,
    pub role: Option<Option<UserRole>>,
    pub now: Option<DateTime>,
    pub affected: Option<u64>,
    pub committed: bool,
}

/// The message about a role that this user does not have.
pub open spec fn no_role_text(role_id: i64, user_id: i64) -> Seq<char> {
    "role "@ + decimal(role_id as int) + " not found for user "@ + decimal(user_id as int)
}

/// How a role is removed. A role of another user counts as not there.
pub open spec fn removes_role(
    user_id: i64,
    role_id: i64,
    current: CurrentUser,
    f: RemoveRoleFacts,
    n: Next<UserAsk, ()>,
) -> bool {
    if !current.is(Role::Manager) {
        n.fails(ErrorCode::Forbidden, forbidden_text())
    } else if !f.begun {
        n.asks(UserAsk::Begin)
    } else {
        match (f.user, f.role) {
            (None, _) => n.asks(UserAsk::UserById { id: user_id }),
            (Some(None), _) => n.fails(ErrorCode::BizUserNotFound, no_user_text(user_id)),
            (Some(Some(_)), None) => n.asks(UserAsk::RoleById { role_id }),
            (Some(Some(_)), Some(role)) => if role is None || role->0.user_id != user_id {
                n.fails(ErrorCode::BizRoleNotFound, no_role_text(role_id, user_id))
            } else {
                match (f.now, f.affected) {
                    (None, _) => n.asks(UserAsk::Now),
                    (Some(when), None) => n.asks(
                        UserAsk::SoftDeleteRole {
                            id: role->0.id,
                            version: role->0.version,
                            when,
                            by: Some(current.id),
                        },
                    ),
                    (Some(_), Some(rows)) => if rows == 0 {
                        n.fails(ErrorCode::VersionConflict, conflict_text())
                    } else if !f.committed {
                        n.asks(UserAsk::Commit)
                    } else {
                        n.succeeds(())
                    },
                }
            },
        }
    }
}

/// The names of some roles.
pub open spec fn names_roles(names: Seq<String>, roles: Seq<Role>) -> bool {
    names.len() == roles.len() && forall|i: int|
        0 <= i < roles.len() ==> (#[trigger] names[i])@ == role_name(roles[i])@
}

fn role_names(roles: &Vec<Role>) -> (r: Vec<String>)
    ensures
        names_roles(r@, roles@),
{
    let mut out: Vec<String> = Vec::new();
    let mut i: usize = 0;
    while i < roles.len()
        invariant
            i <= roles@.len(),
            out@.len() == i,
            forall|j: int| 0 <= j < i ==> (#[trigger] out@[j])@ == role_name(roles@[j])@,
        decreases roles@.len() - i,
    {
        out.push(role_as_str(roles[i]).to_owned());
        i = i + 1;
    }
    out
}

/// How the menus of some roles are put together.
pub open spec fn shows_menus(
    roles: Seq<Role>,
    menus: Option<Vec<Menu>>,
    n: Next<UserAsk, Vec<MenuNodeOut>>,
) -> bool {
    match menus {
        None => n matches Next::Ask(UserAsk::MenusOfRoles { roles: names }) && names_roles(
            names@,
            roles,
        ),
        Some(rows) => n matches Next::Done(Ok(out)) && shows_nodes(out@, menu_tree(rows@)),
    }
}

/// What is known while the caller is described.
pub struct CurrentUserFacts {
    pub user: Option<Option<User>>,
    pub menus: Option<Vec<Menu>>,
}

/// How the caller is described.
pub open spec fn describes_caller(
    current: CurrentUser,
    f: CurrentUserFacts,
    n: Next<UserAsk, CurrentUserOut>,
) -> bool {
    match (f.user, f.menus) {
        (None, _) => n.asks(UserAsk::UserById { id: current.id }),
        (Some(None), _) => n.fails(ErrorCode::BizUserNotFound, no_user_text(current.id)),
        (Some(Some(_)), None) => n matches Next::Ask(UserAsk::MenusOfRoles { roles })
            && names_roles(roles@, current.roles@),
        (Some(Some(u)), Some(menus)) => {
            &&& n matches Next::Done(Ok(out))
            &&& out.id == u.id
            &&& out.username == u.username
            &&& out.full_name == u.full_name
            &&& out.is_active == u.is_active
            &&& names_roles(out.roles@, current.roles@)
            &&& out.shelf_ids@.len() == current.shelf_ids@.len()
            &&& forall|i: int|
                0 <= i < current.shelf_ids@.len() ==> (#[trigger] out.shelf_ids@[i])@ == decimal(
                    current.shelf_ids@[i] as int,
                )
            &&& shows_nodes(out.menus@, menu_tree(menus@))
        },
    }
}

fn copy_menus(v: &Vec<Menu>) -> (r: Vec<Menu>)
    ensures
        r@ == v@,
{
    let r = v.clone();
    assert(r@ =~= v@);
    r
}

fn confirm_user(
    user_id: i64,
    affected: u64,
    updated: &Option<Option<User>>,
    roles: &Option<Vec<UserRoleRow>>,
    committed: bool,
) -> (n: Next<UserAsk, UserOut>)
    ensures
        confirms_user(user_id, Some(affected), *updated, *roles, committed, n),
{
    if affected == 0 {
        return Next::Done(Err(version_conflict()));
    }
    let u = match updated {
        None => {
            return Next::Ask(UserAsk::UserById { id: user_id });
        },
        Some(None) => {
            return Next::Done(Err(user_not_found(user_id)));
        },
        Some(Some(u)) => u,
    };
    match roles {
        None => Next::Ask(UserAsk::RolesOfUser { user_id: u.id }),
        Some(rs) => if !committed {
            Next::Ask(UserAsk::Commit)
        } else {
            Next::Done(Ok(assemble_user_out(u, rs)))
        },
    }
}

fn find_role_row<'a>(rows: &'a Vec<UserRoleRow>, id: i64) -> (r: Option<&'a UserRoleRow>)
    ensures
        match r {
            Some(row) => row_with_id(rows@, id) == Some(*row),
            None => row_with_id(rows@, id) is None,
        },
{
    let mut i: usize = 0;
    assert(rows@.take(0) =~= Seq::<UserRoleRow>::empty());
    while i < rows.len()
        invariant
            i <= rows@.len(),
            row_with_id(rows@.take(i as int), id) is None,
        decreases rows@.len() - i,
    {
        assert(rows@.take(i + 1).drop_last() =~= rows@.take(i as int));
        if rows[i].id == id {
            proof {
                lemma_row_stays(rows@, id, i + 1);
            }
            return Some(&rows[i]);
        }
        i = i + 1;
    }
    assert(rows@.take(i as int) =~= rows@);
    None
}

proof fn lemma_row_stays(rows: Seq<UserRoleRow>, id: i64, k: int)
    requires
        0 <= k <= rows.len(),
        row_with_id(rows.take(k), id) is Some,
    ensures
        row_with_id(rows, id) == row_with_id(rows.take(k), id),
    decreases rows.len(),
{
    if k == rows.len() {
        assert(rows.take(k) =~= rows);
    } else {
        assert(rows.drop_last().take(k) =~= rows.take(k));
        lemma_row_stays(rows.drop_last(), id, k);
    }
}

/// Checks the scope of a role. `Ok(None)` accepts it; `Ok(Some(id))` asks for the
/// shelf with that id first.
pub fn validate_role_scope(req: &UserAddRoleRequest, shelf: &Option<Option<Shelf>>) -> (r: Result<
    Option<i64>,
    AppError,
>)
    ensures
        match scope_check(*req, *shelf) {
            ScopeCheck::AskShelf(id) => r == Ok::<Option<i64>, AppError>(Some(id)),
            ScopeCheck::Refused(p) => r matches Err(e) && e.says(p.0, p.1),
            ScopeCheck::Accepted => r == Ok::<Option<i64>, AppError>(None),
        },
{
    if req.role == Role::ShelfAccount {
        let of_shelf: bool = match &req.scope_type {
            Some(t) => same(t.as_str(), "shelf"),
            None => false,
        };
        let shelf_id: i64 = match req.scope_id {
            Some(id) if of_shelf => id,
            _ => {
                return Err(
                    AppError::validation(
                        "SHELF_ACCOUNT role requires scope_type='shelf' and scope_id",
                    ),
                );
            },
        };
        let s = match shelf {
            None => {
                return Ok(Some(shelf_id));
            },
            Some(None) => {
                let message = join3("shelf ", id_text(shelf_id).as_str(), " not found");
                return Err(AppError::biz(ErrorCode::NotFound, message.as_str()));
            },
            Some(Some(s)) => s,
        };
        if !same(s.zone.as_str(), "PRODUCTION") && !same(s.zone.as_str(), "INSPECTION") {
            let mut message = join3("shelf ", id_text(shelf_id).as_str(), " has invalid zone '");
            message.append(s.zone.as_str());
            message.append("'");
            return Err(AppError::biz(ErrorCode::NotFound, message.as_str()));
        }
        if !s.is_active {
            let message = join3("shelf '", s.code.as_str(), "' is inactive; cannot bind");
            return Err(AppError::biz(ErrorCode::NotFound, message.as_str()));
        }
        Ok(None)
    } else if req.scope_type.is_some() || req.scope_id.is_some() {
        let message = join3("role ", role_as_str(req.role), " does not accept scope");
        Err(AppError::validation(message.as_str()))
    } else {
        Ok(None)
    }
}

fn duplicate_role(req: &UserAddRoleRequest) -> (r: AppError)
    ensures
        r.says(ErrorCode::BizRoleDuplicate, duplicate_role_text(*req)),
{
    let mut message = join3("role ", role_as_str(req.role), " (scope=");
    match &req.scope_type {
        Some(t) => {
            message.append(t.as_str());
        },
        None => {
            message.append("null");
        },
    }
    message.append("/");
    match req.scope_id {
        Some(id) => {
            message.append(id_text(id).as_str());
        },
        None => {
            message.append("null");
        },
    }
    message.append(") already assigned to this user");
    AppError::biz(ErrorCode::BizRoleDuplicate, message.as_str())
}

impl<P, G, S> UserService<P, G, S> {
    /// The endpoints on users, run on these.
    pub fn new(uow_provider: P, snowflake: G, session: S) -> (r: Self)
        ensures
            r.uow_provider == uow_provider,
            r.snowflake == snowflake,
            r.session == session,
    {
        UserService { uow_provider, snowflake, session }
    }

    /// A page of users with their roles.
    pub fn list_users(&self, query: &UserListQuery, current: &CurrentUser, f: &ListUsersFacts) -> (n:
        Next<UserAsk, UserListOut>)
        ensures
            lists_users(*query, *current, *f, n),
    {
        match current.require_role(Role::Manager) {
            Err(e) => {
                return Next::Done(Err(e));
            },
            Ok(()) => {},
        }
        if !f.begun {
            return Next::Ask(UserAsk::Begin);
        }
        let limit: i64 = limit_of(query.limit);
        let offset: i64 = offset_of(query.offset);
        let like = keep_non_blank(&query.username_like);
        let rows = match &f.rows {
            None => {
                return Next::Ask(
                    UserAsk::Users { like, is_active: query.is_active, limit, offset },
                );
            },
            Some(r) => r,
        };
        let total: i64 = match f.total {
            None => {
                return Next::Ask(UserAsk::CountUsers { like, is_active: query.is_active });
            },
            Some(t) => t,
        };
        if f.roles.len() < rows.len() {
            return Next::Ask(UserAsk::RolesOfUser { user_id: rows[f.roles.len()].id });
        }
        let mut items: Vec<UserOut> = Vec::new();
        let mut i: usize = 0;
        while i < rows.len()
            invariant
                i <= rows@.len() <= f.roles@.len(),
                items@.len() == i,
                forall|j: int|
                    0 <= j < i ==> shows_user(#[trigger] items@[j], rows@[j], f.roles@[j]@),
            decreases rows@.len() - i,
        {
            items.push(assemble_user_out(&rows[i], &f.roles[i]));
            i = i + 1;
        }
        Next::Done(Ok(UserListOut { items, total, limit, offset }))
    }

    /// One user with the user's roles.
    pub fn get_user(&self, user_id: i64, current: &CurrentUser, f: &GetUserFacts) -> (n: Next<
        UserAsk,
        UserOut,
    >)
        ensures
            gets_user(user_id, *current, *f, n),
    {
        match current.require_role(Role::Manager) {
            Err(e) => {
                return Next::Done(Err(e));
            },
            Ok(()) => {},
        }
        if !f.begun {
            return Next::Ask(UserAsk::Begin);
        }
        let u = match &f.user {
            None => {
                return Next::Ask(UserAsk::UserById { id: user_id });
            },
            Some(None) => {
                return Next::Done(Err(user_not_found(user_id)));
            },
            Some(Some(u)) => u,
        };
        match &f.roles {
            None => Next::Ask(UserAsk::RolesOfUser { user_id: u.id }),
            Some(roles) => Next::Done(Ok(assemble_user_out(u, roles))),
        }
    }

    /// Creates a user. The name is stored trimmed and in lower case.
    pub fn create_user(
        &self,
        req: &UserCreateRequest,
        current: &CurrentUser,
        f: &CreateUserFacts,
    ) -> (n: Next<UserAsk, UserOut>)
        ensures
            creates_user(*req, *current, *f, n),
    {
        match current.require_role(Role::Manager) {
            Err(e) => {
                return Next::Done(Err(e));
            },
            Ok(()) => {},
        }
        if !f.begun {
            return Next::Ask(UserAsk::Begin);
        }
        let username = text::to_lowercase(trim(req.username.as_str()));
        if username.as_str().is_empty() {
            return Next::Done(Err(AppError::validation("username 不能为空")));
        }
        if req.password.as_str().is_empty() {
            return Next::Done(Err(AppError::validation("password 不能为空")));
        }
        match &f.namesake {
            None => {
                return Next::Ask(UserAsk::UserByUsername { username });
            },
            Some(Some(_)) => {
                let message = join3("username '", username.as_str(), "' already exists");
                return Next::Done(
                    Err(AppError::biz(ErrorCode::BizDuplicateUsername, message.as_str())),
                );
            },
            Some(None) => {},
        }
        let full_name = trim(req.full_name.as_str());
        if full_name.is_empty() {
            return Next::Done(Err(AppError::validation("full_name 不能为空")));
        }
        let id: i64 = match f.id {
            None => {
                return Next::Ask(UserAsk::NewId);
            },
            Some(id) => id,
        };
        let hash = match &f.password_hash {
            None => {
                return Next::Ask(UserAsk::HashPassword { password: req.password.clone() });
            },
            Some(h) => h,
        };
        let now: DateTime = match f.now {
            None => {
                return Next::Ask(UserAsk::Now);
            },
            Some(t) => t,
        };
        match &f.created {
            None => {
                let insert = UserInsert {
                    id,
                    username,
                    password_hash: hash.clone(),
                    full_name: full_name.to_owned(),
                    phone: keep_non_blank(&req.phone),
                    is_active: true,
                    created_at: now,
                    created_by: Some(current.id),
                };
                return Next::Ask(UserAsk::CreateUser { insert });
            },
            Some(Err(fault)) => {
                return Next::Done(Err(map_duplicate_username(fault)));
            },
            Some(Ok(())) => {},
        }
        let u = match &f.user {
            None => {
                return Next::Ask(UserAsk::UserById { id });
            },
            Some(None) => {
                return Next::Done(Err(AppError::internal("创建后回读用户失败")));
            },
            Some(Some(u)) => u,
        };
        match &f.roles {
            None => Next::Ask(UserAsk::RolesOfUser { user_id: u.id }),
            Some(roles) => if !f.committed {
                Next::Ask(UserAsk::Commit)
            } else {
                Next::Done(Ok(assemble_user_out(u, roles)))
            },
        }
    }

    /// Changes a user. A new password given here leaves the user's sessions be.
    pub fn update_user(
        &self,
        user_id: i64,
        req: &UserUpdateRequest,
        current: &CurrentUser,
        f: &UpdateUserFacts,
    ) -> (n: Next<UserAsk, UserOut>)
        ensures
            updates_user(user_id, *req, *current, *f, n),
    {
        match current.require_role(Role::Manager) {
            Err(e) => {
                return Next::Done(Err(e));
            },
            Ok(()) => {},
        }
        if !f.begun {
            return Next::Ask(UserAsk::Begin);
        }
        let u = match &f.user {
            None => {
                return Next::Ask(UserAsk::UserToChange { id: user_id });
            },
            Some(None) => {
                return Next::Done(Err(user_not_found(user_id)));
            },
            Some(Some(u)) => u,
        };
        let full_name: Option<String> = match &req.full_name {
            Some(v) => {
                let t = trim(v.as_str());
                if t.is_empty() {
                    return Next::Done(Err(AppError::validation("full_name 不能为空")));
                }
                Some(t.to_owned())
            },
            None => None,
        };
        let set_phone: bool = req.phone.is_some();
        let phone = keep_non_blank(&req.phone);
        let password_hash: Option<String> = match &req.password {
            Some(p) => {
                if p.as_str().is_empty() {
                    return Next::Done(Err(AppError::validation("password 不能为空")));
                }
                match &f.password_hash {
                    None => {
                        return Next::Ask(UserAsk::HashPassword { password: p.clone() });
                    },
                    Some(h) => Some(h.clone()),
                }
            },
            None => None,
        };
        let now: DateTime = match f.now {
            None => {
                return Next::Ask(UserAsk::Now);
            },
            Some(t) => t,
        };
        match f.affected {
            None => Next::Ask(
                UserAsk::UpdateUser {
                    id: u.id,
                    version: u.version,
                    patch: UserPatch {
                        full_name,
                        set_phone,
                        phone,
                        password_hash,
                        is_active: req.is_active,
                    },
                    when: now,
                    by: Some(current.id),
                },
            ),
            Some(rows) => confirm_user(user_id, rows, &f.updated, &f.roles, f.committed),
        }
    }

    /// Deactivates a user: the row is kept, marked as deleted.
    pub fn deactivate_user(&self, user_id: i64, current: &CurrentUser, f: &DeactivateUserFacts) -> (n:
        Next<UserAsk, UserOut>)
        requires
            f.user matches Some(Some(u)) ==> u.version < i32::MAX,
        ensures
            deactivates_user(user_id, *current, *f, n),
    {
        match current.require_role(Role::Manager) {
            Err(e) => {
                return Next::Done(Err(e));
            },
            Ok(()) => {},
        }
        if !f.begun {
            return Next::Ask(UserAsk::Begin);
        }
        let u = match &f.user {
            None => {
                return Next::Ask(UserAsk::UserById { id: user_id });
            },
            Some(None) => {
                return Next::Done(Err(user_not_found(user_id)));
            },
            Some(Some(u)) => u,
        };
        let when: DateTime = match f.when {
            None => {
                return Next::Ask(UserAsk::Now);
            },
            Some(t) => t,
        };
        match f.affected {
            None => {
                return Next::Ask(
                    UserAsk::SoftDeleteUser {
                        id: u.id,
                        version: u.version,
                        when,
                        by: Some(current.id),
                    },
                );
            },
            Some(rows) => {
                if rows == 0 {
                    return Next::Done(Err(version_conflict()));
                }
            },
        }
        let roles = match &f.roles {
            None => {
                return Next::Ask(UserAsk::RolesOfUser { user_id: u.id });
            },
            Some(r) => r,
        };
        let now: DateTime = match f.now {
            None => {
                return Next::Ask(UserAsk::NowAfterWrite);
            },
            Some(t) => t,
        };
        if !f.committed {
            return Next::Ask(UserAsk::Commit);
        }
        let mut gone = u.clone();
        gone.is_active = false;
        gone.deleted_at = Some(now);
        gone.updated_at = now;
        gone.updated_by = Some(current.id);
        gone.version = u.version + 1;
        assert(gone == deactivated(*u, now, current.id));
        Next::Done(Ok(assemble_user_out(&gone, roles)))
    }

    /// Changes a password: the user's own, or any on behalf of a manager. The old
    /// one has to be known. Afterwards the user is signed out everywhere.
    pub fn change_own_password(
        &self,
        user_id: i64,
        old_password: &str,
        new_password: &str,
        current: &CurrentUser,
        f: &ChangePasswordFacts,
    ) -> (n: Next<UserAsk, ()>)
        ensures
            changes_password(user_id, old_password@, new_password@, *current, *f, n),
    {
        if user_id != current.id && !current.has_role(Role::Manager) {
            return Next::Done(Err(AppError::biz(ErrorCode::Forbidden, "只能修改本人密码")));
        }
        if new_password.is_empty() {
            return Next::Done(Err(AppError::validation("new_password 不能为空")));
        }
        if !f.begun {
            return Next::Ask(UserAsk::Begin);
        }
        let u = match &f.user {
            None => {
                return Next::Ask(UserAsk::UserById { id: user_id });
            },
            Some(None) => {
                return Next::Done(Err(user_not_found(user_id)));
            },
            Some(Some(u)) => u,
        };
        if !u.is_active {
            return Next::Done(Err(user_not_found(user_id)));
        }
        match f.verified {
            None => {
                return Next::Ask(
                    UserAsk::VerifyPassword {
                        password: old_password.to_owned(),
                        hash: u.password_hash.clone(),
                    },
                );
            },
            Some(false) => {
                return Next::Done(
                    Err(AppError::biz(ErrorCode::BizOldPasswordMismatch, "旧密码不正确")),
                );
            },
            Some(true) => {},
        }
        let hash = match &f.password_hash {
            None => {
                return Next::Ask(UserAsk::HashPassword { password: new_password.to_owned() });
            },
            Some(h) => h,
        };
        let now: DateTime = match f.now {
            None => {
                return Next::Ask(UserAsk::Now);
            },
            Some(t) => t,
        };
        match f.affected {
            None => {
                return Next::Ask(
                    UserAsk::RotatePassword {
                        id: u.id,
                        version: u.version,
                        password_hash: hash.clone(),
                        when: now,
                        by: Some(current.id),
                    },
                );
            },
            Some(rows) => {
                if rows == 0 {
                    return Next::Done(Err(version_conflict()));
                }
            },
        }
        if !f.committed {
            return Next::Ask(UserAsk::Commit);
        }
        if !f.cleared {
            return Next::Ask(UserAsk::ClearSessions { user_id });
        }
        Next::Done(Ok(()))
    }

    /// Resets a password to the default one and signs the user out everywhere.
    pub fn admin_reset_password(
        &self,
        user_id: i64,
        current: &CurrentUser,
        f: &ResetPasswordFacts,
    ) -> (n: Next<UserAsk, UserOut>)
        ensures
            resets_password(user_id, *current, *f, n),
    {
        match current.require_role(Role::Manager) {
            Err(e) => {
                return Next::Done(Err(e));
            },
            Ok(()) => {},
        }
        if !f.begun {
            return Next::Ask(UserAsk::Begin);
        }
        let u = match &f.user {
            None => {
                return Next::Ask(UserAsk::UserToChange { id: user_id });
            },
            Some(None) => {
                return Next::Done(Err(user_not_found(user_id)));
            },
            Some(Some(u)) => u,
        };
        let hash = match &f.password_hash {
            None => {
                return Next::Ask(UserAsk::HashPassword { password: "changeme".to_owned() });
            },
            Some(h) => h,
        };
        let now: DateTime = match f.now {
            None => {
                return Next::Ask(UserAsk::Now);
            },
            Some(t) => t,
        };
        let rows: u64 = match f.affected {
            None => {
                return Next::Ask(
                    UserAsk::RotatePassword {
                        id: u.id,
                        version: u.version,
                        password_hash: hash.clone(),
                        when: now,
                        by: Some(current.id),
                    },
                );
            },
            Some(r) => r,
        };
        if f.committed && !f.cleared && rows != 0 {
            if let (Some(Some(_)), Some(_)) = (&f.updated, &f.roles) {
                return Next::Ask(UserAsk::ClearSessions { user_id });
            }
        }
        confirm_user(user_id, rows, &f.updated, &f.roles, f.committed)
    }

    /// The roles of a user.
    pub fn list_user_roles(&self, user_id: i64, current: &CurrentUser, f: &ListRolesFacts) -> (n:
        Next<UserAsk, Vec<UserRoleOut>>)
        ensures
            lists_roles(user_id, *current, *f, n),
    {
        match current.require_role(Role::Manager) {
            Err(e) => {
                return Next::Done(Err(e));
            },
            Ok(()) => {},
        }
        if !f.begun {
            return Next::Ask(UserAsk::Begin);
        }
        match &f.user {
            None => {
                return Next::Ask(UserAsk::UserById { id: user_id });
            },
            Some(None) => {
                return Next::Done(Err(user_not_found(user_id)));
            },
            Some(Some(_)) => {},
        }
        match &f.rows {
            None => Next::Ask(UserAsk::RolesOfUser { user_id }),
            Some(rows) => Next::Done(Ok(to_roles_out(rows))),
        }
    }

    /// Adds a role to a user, where the user has it not yet.
    pub fn add_role(
        &self,
        user_id: i64,
        req: &UserAddRoleRequest,
        current: &CurrentUser,
        f: &AddRoleFacts,
    ) -> (n: Next<UserAsk, UserRoleOut>)
        ensures
            adds_role(user_id, *req, *current, *f, n),
    {
        match current.require_role(Role::Manager) {
            Err(e) => {
                return Next::Done(Err(e));
            },
            Ok(()) => {},
        }
        if !f.begun {
            return Next::Ask(UserAsk::Begin);
        }
        match &f.user {
            None => {
                return Next::Ask(UserAsk::UserById { id: user_id });
            },
            Some(None) => {
                return Next::Done(Err(user_not_found(user_id)));
            },
            Some(Some(_)) => {},
        }
        match validate_role_scope(req, &f.shelf) {
            Err(e) => {
                return Next::Done(Err(e));
            },
            Ok(Some(id)) => {
                return Next::Ask(UserAsk::ShelfById { id });
            },
            Ok(None) => {},
        }
        match f.exists {
            None => {
                return Next::Ask(
                    UserAsk::RoleExists {
                        user_id,
                        role: role_as_str(req.role),
                        scope_type: copy_opt(&req.scope_type),
                        scope_id: req.scope_id,
                    },
                );
            },
            Some(true) => {
                return Next::Done(Err(duplicate_role(req)));
            },
            Some(false) => {},
        }
        let id: i64 = match f.id {
            None => {
                return Next::Ask(UserAsk::NewId);
            },
            Some(id) => id,
        };
        let now: DateTime = match f.now {
            None => {
                return Next::Ask(UserAsk::Now);
            },
            Some(t) => t,
        };
        match &f.created {
            None => {
                let insert = UserRoleInsert {
                    id,
                    user_id,
                    role: role_as_str(req.role).to_owned(),
                    scope_type: copy_opt(&req.scope_type),
                    scope_id: req.scope_id,
                    created_at: now,
                    created_by: Some(current.id),
                };
                return Next::Ask(UserAsk::CreateRole { insert });
            },
            Some(Err(fault)) => {
                return Next::Done(Err(map_duplicate_role(fault)));
            },
            Some(Ok(())) => {},
        }
        match &f.roles {
            None => Next::Ask(UserAsk::RolesOfUser { user_id }),
            Some(rows) => match find_role_row(rows, id) {
                None => Next::Done(Err(AppError::internal("创建后回读角色失败"))),
                Some(row) => if !f.committed {
                    Next::Ask(UserAsk::Commit)
                } else {
                    Next::Done(Ok(to_role_out(row)))
                },
            },
        }
    }

    /// Removes a role from a user. Whether another user has it is not told.
    pub fn remove_role(
        &self,
        user_id: i64,
        role_id: i64,
        current: &CurrentUser,
        f: &RemoveRoleFacts,
    ) -> (n: Next<UserAsk, ()>)
        ensures
            removes_role(user_id, role_id, *current, *f, n),
    {
        match current.require_role(Role::Manager) {
            Err(e) => {
                return Next::Done(Err(e));
            },
            Ok(()) => {},
        }
        if !f.begun {
            return Next::Ask(UserAsk::Begin);
        }
        match &f.user {
            None => {
                return Next::Ask(UserAsk::UserById { id: user_id });
            },
            Some(None) => {
                return Next::Done(Err(user_not_found(user_id)));
            },
            Some(Some(_)) => {},
        }
        let found = match &f.role {
            None => {
                return Next::Ask(UserAsk::RoleById { role_id });
            },
            Some(r) => r,
        };
        let role = match found {
            Some(r) if r.user_id == user_id => r,
            _ => {
                let mut message = join3("role ", id_text(role_id).as_str(), " not found for user ");
                message.append(id_text(user_id).as_str());
                return Next::Done(
                    Err(AppError::biz(ErrorCode::BizRoleNotFound, message.as_str())),
                );
            },
        };
        let when: DateTime = match f.now {
            None => {
                return Next::Ask(UserAsk::Now);
            },
            Some(t) => t,
        };
        match f.affected {
            None => {
                return Next::Ask(
                    UserAsk::SoftDeleteRole {
                        id: role.id,
                        version: role.version,
                        when,
                        by: Some(current.id),
                    },
                );
            },
            Some(rows) => {
                if rows == 0 {
                    return Next::Done(Err(version_conflict()));
                }
            },
        }
        if !f.committed {
            return Next::Ask(UserAsk::Commit);
        }
        Next::Done(Ok(()))
    }

    /// The menu tree that some roles see.
    pub fn menus_for_roles(&self, roles: &Vec<Role>, menus: &Option<Vec<Menu>>) -> (n: Next<
        UserAsk,
        Vec<MenuNodeOut>,
    >)
        ensures
            shows_menus(roles@, *menus, n),
    {
        match menus {
            None => Next::Ask(UserAsk::MenusOfRoles { roles: role_names(roles) }),
            Some(rows) => Next::Done(Ok(build_menu_tree(copy_menus(rows)))),
        }
    }

    /// The caller, with roles, shelves and menus.
    pub fn current_user_out(&self, current: &CurrentUser, f: &CurrentUserFacts) -> (n: Next<
        UserAsk,
        CurrentUserOut,
    >)
        ensures
            describes_caller(*current, *f, n),
    {
        let u = match &f.user {
            None => {
                return Next::Ask(UserAsk::UserById { id: current.id });
            },
            Some(None) => {
                return Next::Done(Err(user_not_found(current.id)));
            },
            Some(Some(u)) => u,
        };
        let menus = match self.menus_for_roles(&current.roles, &f.menus) {
            Next::Ask(ask) => {
                return Next::Ask(ask);
            },
            Next::Done(Err(e)) => {
                return Next::Done(Err(e));
            },
            Next::Done(Ok(m)) => m,
        };
        let mut shelf_ids: Vec<String> = Vec::new();
        let mut i: usize = 0;
        while i < current.shelf_ids.len()
            invariant
                i <= current.shelf_ids@.len(),
                shelf_ids@.len() == i,
                forall|j: int|
                    0 <= j < i ==> (#[trigger] shelf_ids@[j])@ == decimal(
                        current.shelf_ids@[j] as int,
                    ),
            decreases current.shelf_ids@.len() - i,
        {
            shelf_ids.push(id_text(current.shelf_ids[i]));
            i = i + 1;
        }
        Next::Done(
            Ok(
                CurrentUserOut {
                    id: u.id,
                    username: u.username.clone(),
                    full_name: u.full_name.clone(),
                    is_active: u.is_active,
                    roles: role_names(&current.roles),
                    shelf_ids,
                    menus,
                },
            ),
        )
    }
}

// ---------------------------------------------------------------------------
// Laws
// ---------------------------------------------------------------------------

/// The ask changes something that is stored.
pub open spec fn writes(a: UserAsk) -> bool {
    a is CreateUser || a is UpdateUser || a is SoftDeleteUser || a is RotatePassword
        || a is CreateRole || a is SoftDeleteRole
}

/// Endpoints that read write nothing and make nothing last.
pub proof fn reading_leaves_no_trace(
    query: UserListQuery,
    user_id: i64,
    current: CurrentUser,
    f: ListUsersFacts,
    g: GetUserFacts,
    h: ListRolesFacts,
    n: Next<UserAsk, UserListOut>,
    m: Next<UserAsk, UserOut>,
    k: Next<UserAsk, Vec<UserRoleOut>>,
)
    requires
        lists_users(query, current, f, n),
        gets_user(user_id, current, g, m),
        lists_roles(user_id, current, h, k),
    ensures
        n matches Next::Ask(a) ==> !writes(a) && !(a is Commit),
        m matches Next::Ask(a) ==> !writes(a) && !(a is Commit),
        k matches Next::Ask(a) ==> !writes(a) && !(a is Commit),
{
}

/// For a caller who is no manager nothing is even begun, but for a change of the
/// caller's own password.
pub proof fn managing_is_for_managers(
    user_id: i64,
    role_id: i64,
    create: UserCreateRequest,
    update: UserUpdateRequest,
    add: UserAddRoleRequest,
    current: CurrentUser,
    fc: CreateUserFacts,
    fu: UpdateUserFacts,
    fd: DeactivateUserFacts,
    fr: ResetPasswordFacts,
    fa: AddRoleFacts,
    fx: RemoveRoleFacts,
    c: Next<UserAsk, UserOut>,
    u: Next<UserAsk, UserOut>,
    d: Next<UserAsk, UserOut>,
    r: Next<UserAsk, UserOut>,
    a: Next<UserAsk, UserRoleOut>,
    x: Next<UserAsk, ()>,
)
    requires
        !current.is(Role::Manager),
        creates_user(create, current, fc, c),
        updates_user(user_id, update, current, fu, u),
        deactivates_user(user_id, current, fd, d),
        resets_password(user_id, current, fr, r),
        adds_role(user_id, add, current, fa, a),
        removes_role(user_id, role_id, current, fx, x),
    ensures
        c.fails(ErrorCode::Forbidden, forbidden_text()),
        u.fails(ErrorCode::Forbidden, forbidden_text()),
        d.fails(ErrorCode::Forbidden, forbidden_text()),
        r.fails(ErrorCode::Forbidden, forbidden_text()),
        a.fails(ErrorCode::Forbidden, forbidden_text()),
        x.fails(ErrorCode::Forbidden, forbidden_text()),
{
}

/// Success is told only of what was made to last, and nothing is made to last
/// where the row had been changed by someone else.
pub proof fn changes_last_before_success_is_told(
    user_id: i64,
    role_id: i64,
    create: UserCreateRequest,
    update: UserUpdateRequest,
    add: UserAddRoleRequest,
    current: CurrentUser,
    fc: CreateUserFacts,
    fu: UpdateUserFacts,
    fd: DeactivateUserFacts,
    fa: AddRoleFacts,
    fx: RemoveRoleFacts,
    c: Next<UserAsk, UserOut>,
    u: Next<UserAsk, UserOut>,
    d: Next<UserAsk, UserOut>,
    a: Next<UserAsk, UserRoleOut>,
    x: Next<UserAsk, ()>,
)
    requires
        creates_user(create, current, fc, c),
        updates_user(user_id, update, current, fu, u),
        deactivates_user(user_id, current, fd, d),
        adds_role(user_id, add, current, fa, a),
        removes_role(user_id, role_id, current, fx, x),
    ensures
        c matches Next::Done(Ok(_)) ==> fc.committed,
        u matches Next::Done(Ok(_)) ==> fu.committed,
        d matches Next::Done(Ok(_)) ==> fd.committed,
        a matches Next::Done(Ok(_)) ==> fa.committed,
        x matches Next::Done(Ok(_)) ==> fx.committed,
        c matches Next::Ask(q) && q is Commit ==> (fc.created matches Some(Ok(_))),
        u matches Next::Ask(q) && q is Commit ==> (fu.affected matches Some(rows) && rows > 0),
        d matches Next::Ask(q) && q is Commit ==> (fd.affected matches Some(rows) && rows > 0),
        a matches Next::Ask(q) && q is Commit ==> (fa.created matches Some(Ok(_))),
        x matches Next::Ask(q) && q is Commit ==> (fx.affected matches Some(rows) && rows > 0),
{
}

/// A password is stored only where the old one was right, by the user or a
/// manager; it is made to last only where the row had not changed; and sessions
/// are ended, and success is told, only after that.
pub proof fn password_changes_end_sessions_last(
    user_id: i64,
    old_password: Seq<char>,
    new_password: Seq<char>,
    current: CurrentUser,
    f: ChangePasswordFacts,
    n: Next<UserAsk, ()>,
)
    requires
        changes_password(user_id, old_password, new_password, current, f, n),
    ensures
        n matches Next::Ask(a) && writes(a) ==> f.verified == Some(true) && (user_id == current.id
            || current.is(Role::Manager)) && (f.user matches Some(Some(u)) && u.is_active),
        n matches Next::Ask(a) && a is Commit ==> (f.affected matches Some(rows) && rows > 0),
        n matches Next::Ask(a) && a is ClearSessions ==> f.committed,
        n matches Next::Done(Ok(_)) ==> f.committed && f.cleared,
{
}

/// A reset stores the default password, and ends sessions and tells of success
/// only after that lasts.
pub proof fn password_resets_end_sessions_last(
    user_id: i64,
    current: CurrentUser,
    f: ResetPasswordFacts,
    n: Next<UserAsk, UserOut>,
)
    requires
        resets_password(user_id, current, f, n),
    ensures
        n matches Next::Ask(UserAsk::HashPassword { password }) ==> password@ == reset_password(),
        n matches Next::Ask(a) && a is Commit ==> (f.affected matches Some(rows) && rows > 0),
        n matches Next::Ask(a) && a is ClearSessions ==> f.committed,
        n matches Next::Done(Ok(_)) ==> f.committed && f.cleared,
{
}

/// A shelf account is stored only for an active shelf of a zone that can be bound,
/// and any other role only without a scope.
pub proof fn roles_are_stored_with_a_sound_scope(
    user_id: i64,
    req: UserAddRoleRequest,
    current: CurrentUser,
    f: AddRoleFacts,
    n: Next<UserAsk, UserRoleOut>,
)
    requires
        adds_role(user_id, req, current, f, n),
        n matches Next::Ask(a) && writes(a),
    ensures
        f.exists == Some(false),
        req.role == Role::ShelfAccount ==> names_a_shelf(req) && (f.shelf matches Some(Some(s))
            && s.is_active && bindable_zone(s.zone@)),
        req.role != Role::ShelfAccount ==> req.scope_type is None && req.scope_id is None,
        n matches Next::Ask(UserAsk::CreateRole { insert }) ==> insert.scope_id == req.scope_id
            && insert.user_id == user_id,
{
}

/// Roles have names of their own.
pub proof fn role_names_differ(a: Role, b: Role)
    ensures
        role_name(a)@ == role_name(b)@ <==> a == b,
{
    reveal_strlit("MANAGER");
    reveal_strlit("CLERK");
    reveal_strlit("INSPECTOR");
    reveal_strlit("CNC_PROGRAMMER");
    reveal_strlit("SHELF_ACCOUNT");
    if a != b && role_name(a)@ == role_name(b)@ {
        assert(role_name(a)@.len() == role_name(b)@.len());
    }
}

} // verus!
