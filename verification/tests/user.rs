//! Users, their roles and their menus: scenarios with a played data base.
use shopfloor::auth::{CurrentUser, Role};
use shopfloor::calendar::{Date, DateTime};
use shopfloor::error::{AppError, DbFault, ErrorCode};
use shopfloor::flow::Next;
use shopfloor::user::dto::{
    CurrentUserOut, MenuNodeOut, UserAddRoleRequest, UserCreateRequest, UserListOut,
    UserListQuery, UserOut, UserRoleOut, UserUpdateRequest,
};
use shopfloor::user::menu::{assemble_node, build_menu_tree, sort_ids};
use shopfloor::user::model::{Menu, Shelf, User, UserRole};
use shopfloor::user::repo::{UserInsert, UserPatch, UserRoleInsert, UserRoleRow};
use shopfloor::user::service::{
    role_as_str, trimmed_or_none, user_not_found, AddRoleFacts, ChangePasswordFacts,
    CreateUserFacts, CurrentUserFacts, DeactivateUserFacts, GetUserFacts, ListRolesFacts,
    ListUsersFacts, RemoveRoleFacts, ResetPasswordFacts, UpdateUserFacts, UserAsk, UserService,
};

fn now() -> DateTime {
    DateTime { date: Date::new(2026, 9, 18).unwrap(), second_of_day: 43200, nanos: 0 }
}

fn later() -> DateTime {
    DateTime { date: Date::new(2026, 9, 19).unwrap(), second_of_day: 0, nanos: 0 }
}

fn caller(id: i64, role: Role) -> CurrentUser {
    CurrentUser {
        id,
        username: "alice".to_string(),
        roles: vec![role],
        shelf_ids: vec![],
        shelf_wildcard: false,
    }
}

fn manager_current() -> CurrentUser {
    caller(1_000_000, Role::Manager)
}

fn clerk_current() -> CurrentUser {
    caller(2_000_000, Role::Clerk)
}

fn make_user(id: i64) -> User {
    User {
        id,
        username: format!("user{id}"),
        password_hash: "$2b$12$abc".to_string(),
        full_name: format!("User {id}"),
        phone: Some("13800000000".to_string()),
        is_active: true,
        last_login_at: None,
        refresh_token_version: 0,
        version: 0,
        created_at: now(),
        created_by: Some(1_000_000),
        updated_at: now(),
        updated_by: Some(1_000_000),
        deleted_at: None,
    }
}

fn make_user_role_row(id: i64, user_id: i64, role: &str) -> UserRoleRow {
    UserRoleRow {
        id,
        user_id,
        role: role.to_string(),
        scope_type: None,
        scope_id: None,
        version: 0,
        created_at: now(),
        created_by: Some(1_000_000),
        updated_at: now(),
        updated_by: Some(1_000_000),
        deleted_at: None,
        shelf_code: None,
        shelf_name: None,
    }
}

fn make_user_role(id: i64, user_id: i64, role: &str) -> UserRole {
    UserRole {
        id,
        user_id,
        role: role.to_string(),
        scope_type: None,
        scope_id: None,
        version: 0,
        created_at: now(),
        created_by: Some(1_000_000),
        updated_at: now(),
        updated_by: Some(1_000_000),
        deleted_at: None,
    }
}

fn make_shelf(id: i64, zone: &str, is_active: bool) -> Shelf {
    Shelf {
        id,
        code: format!("SHELF-{id}"),
        name: format!("Shelf {id}"),
        zone: zone.to_string(),
        location: None,
        is_active,
        display_order: 0,
        version: 0,
        created_at: now(),
        created_by: Some(1_000_000),
        updated_at: now(),
        updated_by: Some(1_000_000),
        deleted_at: None,
    }
}

fn make_menu(id: i64, parent_id: Option<i64>, code: &str, sort_order: i32) -> Menu {
    Menu {
        id,
        parent_id,
        code: code.to_string(),
        title: format!("Menu {id}"),
        path: Some(format!("/m/{id}")),
        icon: None,
        sort_order,
        is_active: true,
        version: 0,
        created_at: now(),
        created_by: Some(1_000_000),
        updated_at: now(),
        updated_by: Some(1_000_000),
        deleted_at: None,
    }
}

/// The outside world. Passwords are hashed by a mark in front of them.
struct World {
    user: Option<User>,
    namesake: Option<User>,
    rows: Vec<User>,
    total: i64,
    roles: Vec<UserRoleRow>,
    role: Option<UserRole>,
    role_exists: bool,
    shelf: Option<Shelf>,
    menus: Vec<Menu>,
    affected: u64,
    insert_fault: Option<&'static str>,
    asked: Vec<&'static str>,
    listed: Option<(Option<String>, Option<bool>, i64, i64)>,
    inserted: Option<UserInsert>,
    role_inserted: Option<UserRoleInsert>,
    patched: Option<UserPatch>,
    menu_roles: Option<Vec<String>>,
    stored_hash: Option<String>,
    cleared: Option<i64>,
    sessions_down: bool,
}

fn world() -> World {
    World {
        user: None,
        namesake: None,
        rows: vec![],
        total: 0,
        roles: vec![],
        role: None,
        role_exists: false,
        shelf: None,
        menus: vec![],
        affected: 1,
        insert_fault: None,
        asked: vec![],
        listed: None,
        inserted: None,
        role_inserted: None,
        patched: None,
        menu_roles: None,
        stored_hash: None,
        cleared: None,
        sessions_down: false,
    }
}

fn world_with(id: i64) -> World {
    let mut w = world();
    w.user = Some(make_user(id));
    w
}

fn hash(password: &str) -> String {
    format!("$2b${password}")
}

fn svc() -> UserService<(), (), ()> {
    UserService::new((), (), ())
}

const NEW_ID: i64 = 7_000;

impl World {
    fn committed(&self) -> bool {
        self.asked.contains(&"commit")
    }

    fn fault(&self) -> Result<(), DbFault> {
        match self.insert_fault {
            None => Ok(()),
            Some(state) => Err(DbFault {
                sqlstate: Some(state.to_string()),
                error: AppError::internal("database error"),
            }),
        }
    }

    fn list(&mut self, q: &UserListQuery, who: &CurrentUser) -> Result<UserListOut, AppError> {
        let mut f = ListUsersFacts { begun: false, rows: None, total: None, roles: vec![] };
        loop {
            match svc().list_users(q, who, &f) {
                Next::Done(r) => return r,
                Next::Ask(UserAsk::Begin) => {
                    self.asked.push("begin");
                    f.begun = true;
                }
                Next::Ask(UserAsk::Users { like, is_active, limit, offset }) => {
                    self.listed = Some((like, is_active, limit, offset));
                    f.rows = Some(self.rows.clone());
                }
                Next::Ask(UserAsk::CountUsers { like, is_active }) => {
                    let l = self.listed.as_ref().unwrap();
                    assert_eq!((&l.0, l.1), (&like, is_active));
                    f.total = Some(self.total);
                }
                Next::Ask(UserAsk::RolesOfUser { .. }) => f.roles.push(self.roles.clone()),
                Next::Ask(_) => unreachable!("not asked for here"),
            }
        }
    }

    fn get(&mut self, id: i64, who: &CurrentUser) -> Result<UserOut, AppError> {
        let mut f = GetUserFacts { begun: false, user: None, roles: None };
        loop {
            match svc().get_user(id, who, &f) {
                Next::Done(r) => return r,
                Next::Ask(UserAsk::Begin) => {
                    self.asked.push("begin");
                    f.begun = true;
                }
                Next::Ask(UserAsk::UserById { .. }) => f.user = Some(self.user.clone()),
                Next::Ask(UserAsk::RolesOfUser { .. }) => f.roles = Some(self.roles.clone()),
                Next::Ask(_) => unreachable!("not asked for here"),
            }
        }
    }

    fn create(&mut self, req: &UserCreateRequest, who: &CurrentUser) -> Result<UserOut, AppError> {
        let mut f = CreateUserFacts {
            begun: false,
            namesake: None,
            id: None,
            password_hash: None,
            now: None,
            created: None,
            user: None,
            roles: None,
            committed: false,
        };
        loop {
            match svc().create_user(req, who, &f) {
                Next::Done(r) => return r,
                Next::Ask(UserAsk::Begin) => {
                    self.asked.push("begin");
                    f.begun = true;
                }
                Next::Ask(UserAsk::UserByUsername { .. }) => {
                    f.namesake = Some(self.namesake.clone());
                }
                Next::Ask(UserAsk::NewId) => f.id = Some(NEW_ID),
                Next::Ask(UserAsk::HashPassword { password }) => {
                    f.password_hash = Some(hash(&password));
                }
                Next::Ask(UserAsk::Now) => f.now = Some(now()),
                Next::Ask(UserAsk::CreateUser { insert }) => {
                    self.inserted = Some(insert);
                    f.created = Some(self.fault());
                }
                Next::Ask(UserAsk::UserById { id }) => {
                    let mut u = make_user(id);
                    if let Some(i) = &self.inserted {
                        u.username = i.username.clone();
                    }
                    f.user = Some(Some(u));
                }
                Next::Ask(UserAsk::RolesOfUser { .. }) => f.roles = Some(self.roles.clone()),
                Next::Ask(UserAsk::Commit) => {
                    self.asked.push("commit");
                    f.committed = true;
                }
                Next::Ask(_) => unreachable!("not asked for here"),
            }
        }
    }

    fn update(
        &mut self,
        id: i64,
        req: &UserUpdateRequest,
        who: &CurrentUser,
    ) -> Result<UserOut, AppError> {
        let mut f = UpdateUserFacts {
            begun: false,
            user: None,
            password_hash: None,
            now: None,
            affected: None,
            updated: None,
            roles: None,
            committed: false,
        };
        loop {
            match svc().update_user(id, req, who, &f) {
                Next::Done(r) => return r,
                Next::Ask(UserAsk::Begin) => {
                    self.asked.push("begin");
                    f.begun = true;
                }
                Next::Ask(UserAsk::UserToChange { .. }) => f.user = Some(self.user.clone()),
                Next::Ask(UserAsk::UserById { .. }) => f.updated = Some(self.user.clone()),
                Next::Ask(UserAsk::HashPassword { password }) => {
                    f.password_hash = Some(hash(&password));
                }
                Next::Ask(UserAsk::Now) => f.now = Some(now()),
                Next::Ask(UserAsk::UpdateUser { version, patch, by, .. }) => {
                    assert_eq!(version, 0);
                    assert_eq!(by, Some(who.id));
                    self.patched = Some(patch);
                    f.affected = Some(self.affected);
                }
                Next::Ask(UserAsk::RolesOfUser { .. }) => f.roles = Some(self.roles.clone()),
                Next::Ask(UserAsk::Commit) => {
                    self.asked.push("commit");
                    f.committed = true;
                }
                Next::Ask(_) => unreachable!("not asked for here"),
            }
        }
    }

    fn deactivate(&mut self, id: i64, who: &CurrentUser) -> Result<UserOut, AppError> {
        let mut f = DeactivateUserFacts {
            begun: false,
            user: None,
            when: None,
            affected: None,
            roles: None,
            now: None,
            committed: false,
        };
        loop {
            match svc().deactivate_user(id, who, &f) {
                Next::Done(r) => return r,
                Next::Ask(UserAsk::Begin) => {
                    self.asked.push("begin");
                    f.begun = true;
                }
                Next::Ask(UserAsk::UserById { .. }) => f.user = Some(self.user.clone()),
                Next::Ask(UserAsk::Now) => f.when = Some(now()),
                Next::Ask(UserAsk::NowAfterWrite) => f.now = Some(later()),
                Next::Ask(UserAsk::SoftDeleteUser { version, when, .. }) => {
                    assert_eq!(version, 0);
                    assert_eq!(when, now());
                    f.affected = Some(self.affected);
                }
                Next::Ask(UserAsk::RolesOfUser { .. }) => f.roles = Some(self.roles.clone()),
                Next::Ask(UserAsk::Commit) => {
                    self.asked.push("commit");
                    f.committed = true;
                }
                Next::Ask(_) => unreachable!("not asked for here"),
            }
        }
    }

    fn change_password(
        &mut self,
        id: i64,
        old: &str,
        new: &str,
        who: &CurrentUser,
    ) -> Result<(), AppError> {
        let mut f = ChangePasswordFacts {
            begun: false,
            user: None,
            verified: None,
            password_hash: None,
            now: None,
            affected: None,
            committed: false,
            cleared: false,
        };
        loop {
            match svc().change_own_password(id, old, new, who, &f) {
                Next::Done(r) => return r,
                Next::Ask(UserAsk::Begin) => {
                    self.asked.push("begin");
                    f.begun = true;
                }
                Next::Ask(UserAsk::UserById { .. }) => f.user = Some(self.user.clone()),
                Next::Ask(UserAsk::VerifyPassword { password, hash: stored }) => {
                    f.verified = Some(hash(&password) == stored);
                }
                Next::Ask(UserAsk::HashPassword { password }) => {
                    f.password_hash = Some(hash(&password));
                }
                Next::Ask(UserAsk::Now) => f.now = Some(now()),
                Next::Ask(UserAsk::RotatePassword { password_hash, .. }) => {
                    self.stored_hash = Some(password_hash);
                    f.affected = Some(self.affected);
                }
                Next::Ask(UserAsk::Commit) => {
                    self.asked.push("commit");
                    f.committed = true;
                }
                Next::Ask(UserAsk::ClearSessions { user_id }) => {
                    assert!(self.committed(), "sessions end after the commit");
                    if !self.sessions_down {
                        self.cleared = Some(user_id);
                    }
                    f.cleared = true;
                }
                Next::Ask(_) => unreachable!("not asked for here"),
            }
        }
    }

    fn reset_password(&mut self, id: i64, who: &CurrentUser) -> Result<UserOut, AppError> {
        let mut f = ResetPasswordFacts {
            begun: false,
            user: None,
            password_hash: None,
            now: None,
            affected: None,
            updated: None,
            roles: None,
            committed: false,
            cleared: false,
        };
        loop {
            match svc().admin_reset_password(id, who, &f) {
                Next::Done(r) => return r,
                Next::Ask(UserAsk::Begin) => {
                    self.asked.push("begin");
                    f.begun = true;
                }
                Next::Ask(UserAsk::UserToChange { .. }) => f.user = Some(self.user.clone()),
                Next::Ask(UserAsk::UserById { .. }) => f.updated = Some(self.user.clone()),
                Next::Ask(UserAsk::HashPassword { password }) => {
                    f.password_hash = Some(hash(&password));
                }
                Next::Ask(UserAsk::Now) => f.now = Some(now()),
                Next::Ask(UserAsk::RotatePassword { password_hash, .. }) => {
                    self.stored_hash = Some(password_hash);
                    f.affected = Some(self.affected);
                }
                Next::Ask(UserAsk::RolesOfUser { .. }) => f.roles = Some(self.roles.clone()),
                Next::Ask(UserAsk::Commit) => {
                    self.asked.push("commit");
                    f.committed = true;
                }
                Next::Ask(UserAsk::ClearSessions { user_id }) => {
                    assert!(self.committed(), "sessions end after the commit");
                    if !self.sessions_down {
                        self.cleared = Some(user_id);
                    }
                    f.cleared = true;
                }
                Next::Ask(_) => unreachable!("not asked for here"),
            }
        }
    }

    fn list_roles(&mut self, id: i64, who: &CurrentUser) -> Result<Vec<UserRoleOut>, AppError> {
        let mut f = ListRolesFacts { begun: false, user: None, rows: None };
        loop {
            match svc().list_user_roles(id, who, &f) {
                Next::Done(r) => return r,
                Next::Ask(UserAsk::Begin) => {
                    self.asked.push("begin");
                    f.begun = true;
                }
                Next::Ask(UserAsk::UserById { .. }) => f.user = Some(self.user.clone()),
                Next::Ask(UserAsk::RolesOfUser { .. }) => f.rows = Some(self.roles.clone()),
                Next::Ask(_) => unreachable!("not asked for here"),
            }
        }
    }

    fn add_role(
        &mut self,
        id: i64,
        req: &UserAddRoleRequest,
        who: &CurrentUser,
    ) -> Result<UserRoleOut, AppError> {
        let mut f = AddRoleFacts {
            begun: false,
            user: None,
            shelf: None,
            exists: None,
            id: None,
            now: None,
            created: None,
            roles: None,
            committed: false,
        };
        loop {
            match svc().add_role(id, req, who, &f) {
                Next::Done(r) => return r,
                Next::Ask(UserAsk::Begin) => {
                    self.asked.push("begin");
                    f.begun = true;
                }
                Next::Ask(UserAsk::UserById { .. }) => f.user = Some(self.user.clone()),
                Next::Ask(UserAsk::ShelfById { .. }) => f.shelf = Some(self.shelf.clone()),
                Next::Ask(UserAsk::RoleExists { role, .. }) => {
                    assert_eq!(role, role_as_str(req.role));
                    f.exists = Some(self.role_exists);
                }
                Next::Ask(UserAsk::NewId) => f.id = Some(NEW_ID),
                Next::Ask(UserAsk::Now) => f.now = Some(now()),
                Next::Ask(UserAsk::CreateRole { insert }) => {
                    self.role_inserted = Some(insert);
                    f.created = Some(self.fault());
                }
                Next::Ask(UserAsk::RolesOfUser { user_id }) => {
                    let i = self.role_inserted.as_ref().unwrap();
                    f.roles = Some(vec![make_user_role_row(i.id, user_id, &i.role)]);
                }
                Next::Ask(UserAsk::Commit) => {
                    self.asked.push("commit");
                    f.committed = true;
                }
                Next::Ask(_) => unreachable!("not asked for here"),
            }
        }
    }

    fn remove_role(&mut self, id: i64, role_id: i64, who: &CurrentUser) -> Result<(), AppError> {
        let mut f = RemoveRoleFacts {
            begun: false,
            user: None,
            role: None,
            now: None,
            affected: None,
            committed: false,
        };
        loop {
            match svc().remove_role(id, role_id, who, &f) {
                Next::Done(r) => return r,
                Next::Ask(UserAsk::Begin) => {
                    self.asked.push("begin");
                    f.begun = true;
                }
                Next::Ask(UserAsk::UserById { .. }) => f.user = Some(self.user.clone()),
                Next::Ask(UserAsk::RoleById { .. }) => f.role = Some(self.role.clone()),
                Next::Ask(UserAsk::Now) => f.now = Some(now()),
                Next::Ask(UserAsk::SoftDeleteRole { .. }) => f.affected = Some(self.affected),
                Next::Ask(UserAsk::Commit) => {
                    self.asked.push("commit");
                    f.committed = true;
                }
                Next::Ask(_) => unreachable!("not asked for here"),
            }
        }
    }

    fn menus(&mut self, roles: &Vec<Role>) -> Result<Vec<MenuNodeOut>, AppError> {
        let mut menus: Option<Vec<Menu>> = None;
        loop {
            match svc().menus_for_roles(roles, &menus) {
                Next::Done(r) => return r,
                Next::Ask(UserAsk::MenusOfRoles { roles }) => {
                    self.menu_roles = Some(roles);
                    menus = Some(self.menus.clone());
                }
                Next::Ask(_) => unreachable!("not asked for here"),
            }
        }
    }

    fn whoami(&mut self, who: &CurrentUser) -> Result<CurrentUserOut, AppError> {
        let mut f = CurrentUserFacts { user: None, menus: None };
        loop {
            match svc().current_user_out(who, &f) {
                Next::Done(r) => return r,
                Next::Ask(UserAsk::UserById { .. }) => f.user = Some(self.user.clone()),
                Next::Ask(UserAsk::MenusOfRoles { .. }) => f.menus = Some(self.menus.clone()),
                Next::Ask(_) => unreachable!("not asked for here"),
            }
        }
    }
}

fn query(limit: Option<i64>, offset: Option<i64>) -> UserListQuery {
    UserListQuery { username_like: None, is_active: None, limit, offset }
}

fn make_create_req() -> UserCreateRequest {
    UserCreateRequest {
        username: "alice".to_string(),
        password: "secret123".to_string(),
        full_name: "Alice".to_string(),
        phone: None,
    }
}

fn make_update_req() -> UserUpdateRequest {
    UserUpdateRequest {
        full_name: Some("Updated".to_string()),
        phone: None,
        password: None,
        is_active: None,
    }
}

fn role_req(role: Role, scope: Option<(&str, i64)>) -> UserAddRoleRequest {
    UserAddRoleRequest {
        role,
        scope_type: scope.map(|s| s.0.to_string()),
        scope_id: scope.map(|s| s.1),
    }
}

fn code_of<T>(r: Result<T, AppError>) -> ErrorCode {
    match r {
        Ok(_) => panic!("an error was expected"),
        Err(e) => e.code(),
    }
}

// Listing ------------------------------------------------------------------------

#[test]
fn list_users_returns_paginated_list() {
    let mut w = world();
    w.rows = vec![make_user(101), make_user(102)];
    w.total = 42;
    w.roles = vec![make_user_role_row(1, 101, "MANAGER")];
    let out = w.list(&query(Some(20), Some(0)), &manager_current()).unwrap();
    assert_eq!(out.total, 42);
    assert_eq!(out.items.len(), 2);
    assert_eq!(out.limit, 20);
    assert_eq!(out.offset, 0);
    assert_eq!(out.items[1].roles[0].role, "MANAGER");
    assert!(!w.committed());
}

#[test]
fn list_users_requires_manager_role() {
    let mut w = world();
    assert_eq!(code_of(w.list(&query(None, None), &clerk_current())), ErrorCode::Forbidden);
    assert!(w.asked.is_empty());
}

#[test]
fn list_users_clamps_limit_to_max_when_exceeded() {
    let mut w = world();
    let out = w.list(&query(Some(10_000), Some(0)), &manager_current()).unwrap();
    assert_eq!(w.listed.as_ref().unwrap().2, 500);
    assert_eq!(out.limit, 500);
    assert!(!w.committed());
}

#[test]
fn list_users_returns_empty_when_no_results() {
    let mut w = world();
    let mut q = query(None, None);
    q.username_like = Some("nope".to_string());
    let out = w.list(&q, &manager_current()).unwrap();
    assert!(out.items.is_empty());
    assert_eq!(out.total, 0);
    assert_eq!(out.limit, 50);
    assert_eq!(out.offset, 0);
    assert_eq!(w.listed.as_ref().unwrap().0.as_deref(), Some("nope"));
    assert!(!w.committed());
}

#[test]
fn list_users_filters_by_is_active() {
    let mut w = world();
    let mut q = query(None, None);
    q.is_active = Some(false);
    w.list(&q, &manager_current()).unwrap();
    assert_eq!(w.listed.as_ref().unwrap().1, Some(false));
    assert!(!w.committed());
}

#[test]
fn list_users_normalizes_blank_username_like_to_none() {
    let mut w = world();
    let mut q = query(None, None);
    q.username_like = Some("   ".to_string());
    w.list(&q, &manager_current()).unwrap();
    assert!(w.listed.as_ref().unwrap().0.is_none());
    assert!(!w.committed());
}

#[test]
fn list_users_with_zero_limit_clamps_to_one() {
    let mut w = world();
    let out = w.list(&query(Some(0), Some(0)), &manager_current()).unwrap();
    assert_eq!(w.listed.as_ref().unwrap().2, 1);
    assert_eq!(out.limit, 1);
}

#[test]
fn list_users_with_negative_offset_clamps_to_zero() {
    let mut w = world();
    let out = w.list(&query(Some(10), Some(-5)), &manager_current()).unwrap();
    assert_eq!(w.listed.as_ref().unwrap().3, 0);
    assert_eq!(out.offset, 0);
}

#[test]
fn list_users_with_all_none_query_uses_defaults() {
    let mut w = world();
    w.list(&query(None, None), &manager_current()).unwrap();
    assert_eq!(w.listed, Some((None, None, 50, 0)));
    assert!(!w.committed());
}

// Reading one ----------------------------------------------------------------------

#[test]
fn get_user_returns_user_with_roles() {
    let mut w = world_with(101);
    w.roles = vec![make_user_role_row(1, 101, "MANAGER")];
    let out = w.get(101, &manager_current()).unwrap();
    assert_eq!(out.id, 101);
    assert_eq!(out.roles.len(), 1);
    assert_eq!(out.roles[0].role, "MANAGER");
    assert!(!w.committed());
}

#[test]
fn get_user_returns_not_found_when_user_missing() {
    let mut w = world();
    let e = w.get(999, &manager_current()).unwrap_err();
    assert_eq!(e.code(), ErrorCode::BizUserNotFound);
    assert_eq!(e.message, "user 999 not found");
    assert!(!w.committed());
}

#[test]
fn get_user_requires_manager_role() {
    let mut w = world_with(101);
    assert_eq!(code_of(w.get(101, &clerk_current())), ErrorCode::Forbidden);
    assert!(w.asked.is_empty());
}

#[test]
fn get_user_returns_not_found_for_deactivated_user() {
    let mut w = world();
    assert_eq!(code_of(w.get(42, &manager_current())), ErrorCode::BizUserNotFound);
    assert!(!w.committed());
}

#[test]
fn scoped_roles_show_their_shelf() {
    let mut w = world_with(101);
    let mut row = make_user_role_row(1, 101, "SHELF_ACCOUNT");
    row.scope_type = Some("shelf".to_string());
    row.scope_id = Some(-7);
    row.shelf_code = Some("S".to_string());
    w.roles = vec![row];
    let out = w.get(101, &manager_current()).unwrap();
    assert_eq!(out.roles[0].scope_id.as_deref(), Some("-7"));
    assert_eq!(out.roles[0].shelf_code.as_deref(), Some("S"));
}

// Creating ---------------------------------------------------------------------------

#[test]
fn create_user_succeeds_with_valid_inputs() {
    let mut w = world();
    let out = w.create(&make_create_req(), &manager_current()).unwrap();
    assert_eq!(out.username, "alice");
    assert!(out.is_active);
    assert!(w.committed());
}

#[test]
fn create_user_rejects_empty_username_after_trim() {
    let mut w = world();
    let mut req = make_create_req();
    req.username = "   ".to_string();
    assert_eq!(code_of(w.create(&req, &manager_current())), ErrorCode::ValidationError);
    assert!(!w.committed());
}

#[test]
fn create_user_rejects_empty_password() {
    let mut w = world();
    let mut req = make_create_req();
    req.password = "".to_string();
    assert_eq!(code_of(w.create(&req, &manager_current())), ErrorCode::ValidationError);
    assert!(!w.committed());
}

#[test]
fn create_user_rejects_empty_full_name_after_trim() {
    let mut w = world();
    let mut req = make_create_req();
    req.full_name = "   ".to_string();
    assert_eq!(code_of(w.create(&req, &manager_current())), ErrorCode::ValidationError);
    assert!(!w.committed());
}

#[test]
fn create_user_rejects_duplicate_username_as_409() {
    let mut w = world();
    w.namesake = Some(make_user(42));
    assert_eq!(
        code_of(w.create(&make_create_req(), &manager_current())),
        ErrorCode::BizDuplicateUsername
    );
    assert!(!w.committed());
}

#[test]
fn create_user_maps_a_violated_unique_index() {
    let mut w = world();
    w.insert_fault = Some("23505");
    assert_eq!(
        code_of(w.create(&make_create_req(), &manager_current())),
        ErrorCode::BizDuplicateUsername
    );
    let mut other = world();
    other.insert_fault = Some("40001");
    assert_eq!(
        code_of(other.create(&make_create_req(), &manager_current())),
        ErrorCode::Internal
    );
    assert!(!w.committed());
    assert!(!other.committed());
}

#[test]
fn create_user_injects_snowflake_id_into_insert() {
    let mut w = world();
    let out = w.create(&make_create_req(), &manager_current()).unwrap();
    assert_eq!(w.inserted.as_ref().unwrap().id, out.id);
    assert_eq!(out.id, NEW_ID);
    assert!(w.committed());
}

#[test]
fn create_user_hashes_password_before_insert() {
    let mut w = world();
    w.create(&make_create_req(), &manager_current()).unwrap();
    let stored = w.inserted.as_ref().unwrap().password_hash.clone();
    assert!(stored.starts_with("$2"));
    assert_ne!(stored, "secret123");
    assert!(w.committed());
}

#[test]
fn create_user_trims_and_lowercases_username_and_full_name() {
    let mut w = world();
    let req = UserCreateRequest {
        username: "  Alice@EXAMPLE.COM  ".to_string(),
        password: "secret123".to_string(),
        full_name: "  Alice Wonderland  ".to_string(),
        phone: None,
    };
    w.create(&req, &manager_current()).unwrap();
    let i = w.inserted.as_ref().unwrap();
    assert_eq!(i.username, "alice@example.com");
    assert_eq!(i.full_name, "Alice Wonderland");
    assert!(w.committed());
}

#[test]
fn create_user_lowercases_beyond_ascii() {
    let mut w = world();
    let mut req = make_create_req();
    req.username = "\u{3000}ÄRGER ".to_string();
    w.create(&req, &manager_current()).unwrap();
    assert_eq!(w.inserted.as_ref().unwrap().username, "ärger");
}

// Changing -----------------------------------------------------------------------------

#[test]
fn update_user_succeeds_with_valid_inputs() {
    let mut w = world_with(101);
    let out = w.update(101, &make_update_req(), &manager_current()).unwrap();
    assert_eq!(out.id, 101);
    assert!(w.committed());
}

#[test]
fn update_user_requires_manager_role() {
    let mut w = world_with(101);
    assert_eq!(
        code_of(w.update(101, &make_update_req(), &clerk_current())),
        ErrorCode::Forbidden
    );
    assert!(w.asked.is_empty());
}

#[test]
fn update_user_rejects_empty_full_name_after_trim() {
    let mut w = world_with(101);
    let mut req = make_update_req();
    req.full_name = Some("   ".to_string());
    assert_eq!(code_of(w.update(101, &req, &manager_current())), ErrorCode::ValidationError);
    assert!(!w.committed());
}

#[test]
fn update_user_phone_explicit_empty_clears_phone() {
    let mut w = world_with(101);
    let mut req = make_update_req();
    req.phone = Some("".to_string());
    w.update(101, &req, &manager_current()).unwrap();
    let p = w.patched.as_ref().unwrap();
    assert!(p.set_phone);
    assert!(p.phone.is_none());
    assert!(w.committed());
}

#[test]
fn update_user_returns_version_conflict_when_no_row_affected() {
    let mut w = world_with(101);
    w.affected = 0;
    assert_eq!(
        code_of(w.update(101, &make_update_req(), &manager_current())),
        ErrorCode::VersionConflict
    );
    assert!(!w.committed());
}

#[test]
fn update_user_rejects_empty_password() {
    let mut w = world_with(101);
    let mut req = make_update_req();
    req.password = Some("".to_string());
    assert_eq!(code_of(w.update(101, &req, &manager_current())), ErrorCode::ValidationError);
    assert!(!w.committed());
}

#[test]
fn update_user_returns_not_found_for_missing_user() {
    let mut w = world();
    assert_eq!(
        code_of(w.update(999, &make_update_req(), &manager_current())),
        ErrorCode::BizUserNotFound
    );
    assert!(!w.committed());
}

#[test]
fn update_user_with_all_none_fields_commits_without_changes() {
    let mut w = world_with(101);
    let req = UserUpdateRequest { full_name: None, phone: None, password: None, is_active: None };
    w.update(101, &req, &manager_current()).unwrap();
    let p = w.patched.as_ref().unwrap();
    assert!(p.full_name.is_none());
    assert!(!p.set_phone);
    assert!(w.committed());
}

// Deactivating ---------------------------------------------------------------------------

#[test]
fn deactivate_user_soft_deletes_and_returns_inactive_out() {
    let mut w = world_with(101);
    let out = w.deactivate(101, &manager_current()).unwrap();
    assert!(!out.is_active);
    assert_eq!(out.version, 1);
    assert_eq!(out.updated_at, later());
    assert!(w.committed());
}

#[test]
fn deactivate_user_requires_manager_role() {
    let mut w = world_with(101);
    assert_eq!(code_of(w.deactivate(101, &clerk_current())), ErrorCode::Forbidden);
    assert!(w.asked.is_empty());
}

#[test]
fn deactivate_user_returns_version_conflict_when_no_row_affected() {
    let mut w = world_with(101);
    w.affected = 0;
    assert_eq!(code_of(w.deactivate(101, &manager_current())), ErrorCode::VersionConflict);
    assert!(!w.committed());
}

#[test]
fn deactivate_user_returns_not_found_for_missing_user() {
    let mut w = world();
    assert_eq!(code_of(w.deactivate(999, &manager_current())), ErrorCode::BizUserNotFound);
    assert!(!w.committed());
}

// Passwords --------------------------------------------------------------------------------

fn world_with_password(id: i64, password: &str) -> World {
    let mut w = world_with(id);
    w.user.as_mut().unwrap().password_hash = hash(password);
    w
}

#[test]
fn change_own_password_succeeds_and_clears_session_after_commit() {
    let mut w = world_with_password(42, "oldpass");
    w.change_password(42, "oldpass", "newpass", &caller(42, Role::Clerk)).unwrap();
    assert_eq!(w.cleared, Some(42));
    assert_eq!(w.stored_hash, Some(hash("newpass")));
    assert!(w.committed());
}

#[test]
fn change_own_password_manager_can_reset_other_user() {
    let mut w = world_with_password(42, "oldpass");
    w.change_password(42, "oldpass", "newpass", &manager_current()).unwrap();
    assert!(w.committed());
}

#[test]
fn change_own_password_rejects_non_self_non_manager() {
    let mut w = world_with_password(42, "oldpass");
    assert_eq!(
        code_of(w.change_password(42, "oldpass", "newpass", &clerk_current())),
        ErrorCode::Forbidden
    );
    assert!(w.asked.is_empty());
}

#[test]
fn change_own_password_rejects_wrong_old_password() {
    let mut w = world_with_password(42, "real-old");
    assert_eq!(
        code_of(w.change_password(42, "wrong-old", "newpass", &caller(42, Role::Clerk))),
        ErrorCode::BizOldPasswordMismatch
    );
    assert!(!w.committed());
}

#[test]
fn change_own_password_returns_not_found_for_missing_user() {
    let mut w = world();
    assert_eq!(
        code_of(w.change_password(42, "oldpass", "newpass", &caller(42, Role::Clerk))),
        ErrorCode::BizUserNotFound
    );
    assert!(!w.committed());
}

#[test]
fn change_own_password_rejects_empty_new_password() {
    let mut w = world_with_password(42, "oldpass");
    assert_eq!(
        code_of(w.change_password(42, "oldpass", "", &caller(42, Role::Clerk))),
        ErrorCode::ValidationError
    );
    assert!(w.asked.is_empty());
}

#[test]
fn admin_reset_password_succeeds_and_clears_session_after_commit() {
    let mut w = world_with(42);
    let out = w.reset_password(42, &manager_current()).unwrap();
    assert_eq!(out.id, 42);
    assert_eq!(w.stored_hash, Some(hash("changeme")));
    assert_eq!(w.cleared, Some(42));
    assert!(w.committed());
}

#[test]
fn change_own_password_session_failure_is_swallowed() {
    let mut w = world_with_password(42, "oldpass");
    w.sessions_down = true;
    w.change_password(42, "oldpass", "newpass", &caller(42, Role::Clerk)).unwrap();
    assert!(w.cleared.is_none());
    assert!(w.committed());
}

#[test]
fn admin_reset_password_session_failure_is_swallowed() {
    let mut w = world_with(42);
    w.sessions_down = true;
    w.reset_password(42, &manager_current()).unwrap();
    assert!(w.cleared.is_none());
    assert!(w.committed());
}

#[test]
fn admin_reset_password_requires_manager_role() {
    let mut w = world_with(42);
    assert_eq!(code_of(w.reset_password(42, &clerk_current())), ErrorCode::Forbidden);
    assert!(w.asked.is_empty());
}

#[test]
fn admin_reset_password_returns_version_conflict_when_no_row_affected() {
    let mut w = world_with(42);
    w.affected = 0;
    assert_eq!(code_of(w.reset_password(42, &manager_current())), ErrorCode::VersionConflict);
    assert!(!w.committed());
    assert!(w.cleared.is_none());
}

#[test]
fn admin_reset_password_returns_not_found_for_missing_user() {
    let mut w = world();
    assert_eq!(code_of(w.reset_password(999, &manager_current())), ErrorCode::BizUserNotFound);
    assert!(!w.committed());
}

// Roles --------------------------------------------------------------------------------------

#[test]
fn list_user_roles_returns_roles_for_user() {
    let mut w = world_with(42);
    w.roles = vec![make_user_role_row(1, 42, "MANAGER")];
    let roles = w.list_roles(42, &manager_current()).unwrap();
    assert_eq!(roles.len(), 1);
    assert_eq!(roles[0].role, "MANAGER");
    assert!(!w.committed());
}

#[test]
fn list_user_roles_requires_manager_role() {
    let mut w = world_with(42);
    assert_eq!(code_of(w.list_roles(42, &clerk_current())), ErrorCode::Forbidden);
    assert!(w.asked.is_empty());
}

#[test]
fn list_user_roles_returns_not_found_when_user_missing() {
    let mut w = world();
    assert_eq!(code_of(w.list_roles(999, &manager_current())), ErrorCode::BizUserNotFound);
    assert!(!w.committed());
}

#[test]
fn list_user_roles_returns_empty_list_when_no_roles() {
    let mut w = world_with(42);
    assert!(w.list_roles(42, &manager_current()).unwrap().is_empty());
    assert!(!w.committed());
}

#[test]
fn add_role_succeeds_for_non_shelf_role() {
    let mut w = world_with(42);
    let out = w.add_role(42, &role_req(Role::Clerk, None), &manager_current()).unwrap();
    assert_eq!(out.role, "CLERK");
    assert!(w.committed());
}

#[test]
fn add_role_requires_manager_role() {
    let mut w = world_with(42);
    assert_eq!(
        code_of(w.add_role(42, &role_req(Role::Clerk, None), &clerk_current())),
        ErrorCode::Forbidden
    );
    assert!(w.asked.is_empty());
}

#[test]
fn add_role_shelf_account_without_scope_fails_validation() {
    let mut w = world_with(42);
    assert_eq!(
        code_of(w.add_role(42, &role_req(Role::ShelfAccount, None), &manager_current())),
        ErrorCode::ValidationError
    );
    assert!(!w.committed());
}

#[test]
fn add_role_non_shelf_role_with_scope_fails_validation() {
    let mut w = world_with(42);
    let req = role_req(Role::Clerk, Some(("shelf", 7)));
    assert_eq!(code_of(w.add_role(42, &req, &manager_current())), ErrorCode::ValidationError);
    assert!(!w.committed());
}

#[test]
fn add_role_shelf_account_returns_not_found_when_shelf_missing() {
    let mut w = world_with(42);
    let req = role_req(Role::ShelfAccount, Some(("shelf", 999)));
    assert_eq!(code_of(w.add_role(42, &req, &manager_current())), ErrorCode::NotFound);
    assert!(!w.committed());
}

#[test]
fn add_role_shelf_account_returns_not_found_when_zone_invalid() {
    let mut w = world_with(42);
    w.shelf = Some(make_shelf(7, "STORAGE", true));
    let req = role_req(Role::ShelfAccount, Some(("shelf", 7)));
    assert_eq!(code_of(w.add_role(42, &req, &manager_current())), ErrorCode::NotFound);
    assert!(!w.committed());
}

#[test]
fn add_role_returns_duplicate_role_409() {
    let mut w = world_with(42);
    w.role_exists = true;
    assert_eq!(
        code_of(w.add_role(42, &role_req(Role::Clerk, None), &manager_current())),
        ErrorCode::BizRoleDuplicate
    );
    assert!(!w.committed());
}

#[test]
fn add_role_maps_a_violated_unique_index() {
    let mut w = world_with(42);
    w.insert_fault = Some("23505");
    assert_eq!(
        code_of(w.add_role(42, &role_req(Role::Clerk, None), &manager_current())),
        ErrorCode::BizRoleDuplicate
    );
    assert!(!w.committed());
}

#[test]
fn remove_role_succeeds() {
    let mut w = world_with(42);
    w.role = Some(make_user_role(99, 42, "MANAGER"));
    w.remove_role(42, 99, &manager_current()).unwrap();
    assert!(w.committed());
}

#[test]
fn remove_role_requires_manager_role() {
    let mut w = world_with(42);
    assert_eq!(code_of(w.remove_role(42, 99, &clerk_current())), ErrorCode::Forbidden);
    assert!(w.asked.is_empty());
}

#[test]
fn remove_role_returns_not_found_when_role_missing() {
    let mut w = world_with(42);
    assert_eq!(code_of(w.remove_role(42, 999, &manager_current())), ErrorCode::BizRoleNotFound);
    assert!(!w.committed());
}

#[test]
fn remove_role_returns_not_found_when_role_belongs_to_other_user() {
    let mut w = world_with(42);
    w.role = Some(make_user_role(100, 99, "MANAGER"));
    assert_eq!(code_of(w.remove_role(42, 100, &manager_current())), ErrorCode::BizRoleNotFound);
    assert!(!w.committed());
}

#[test]
fn remove_role_returns_version_conflict_when_no_row_affected() {
    let mut w = world_with(42);
    w.role = Some(make_user_role(99, 42, "MANAGER"));
    w.affected = 0;
    assert_eq!(code_of(w.remove_role(42, 99, &manager_current())), ErrorCode::VersionConflict);
    assert!(!w.committed());
}

#[test]
fn role_names_are_the_stored_ones() {
    assert_eq!(role_as_str(Role::Manager), "MANAGER");
    assert_eq!(role_as_str(Role::Clerk), "CLERK");
    assert_eq!(role_as_str(Role::Inspector), "INSPECTOR");
    assert_eq!(role_as_str(Role::CncProgrammer), "CNC_PROGRAMMER");
    assert_eq!(role_as_str(Role::ShelfAccount), "SHELF_ACCOUNT");
}

// Menus ----------------------------------------------------------------------------------------

#[test]
fn menus_for_roles_returns_tree_for_active_menus() {
    let mut w = world();
    w.menus = vec![
        make_menu(1, None, "ROOT", 0),
        make_menu(2, Some(1), "CHILD-A", 0),
        make_menu(3, Some(1), "CHILD-B", 1),
    ];
    let tree = w.menus(&vec![Role::Manager]).unwrap();
    assert_eq!(tree.len(), 1);
    assert_eq!(tree[0].code, "ROOT");
    assert_eq!(tree[0].children.len(), 2);
    assert_eq!(w.menu_roles, Some(vec!["MANAGER".to_string()]));
}

#[test]
fn menus_for_roles_returns_empty_tree_for_empty_role_list() {
    let mut w = world();
    let tree = w.menus(&vec![]).unwrap();
    assert!(tree.is_empty());
    assert_eq!(w.menu_roles, Some(vec![]));
}

#[test]
fn menus_are_sorted_by_order_and_orphans_become_roots() {
    let tree = build_menu_tree(vec![
        make_menu(5, None, "LAST", 9),
        make_menu(3, Some(77), "ORPHAN", 4),
        make_menu(2, None, "FIRST", 1),
        make_menu(8, Some(2), "B", 3),
        make_menu(9, Some(2), "A", 2),
    ]);
    let codes: Vec<&str> = tree.iter().map(|n| n.code.as_str()).collect();
    assert_eq!(codes, vec!["FIRST", "ORPHAN", "LAST"]);
    let below: Vec<&str> = tree[0].children.iter().map(|n| n.code.as_str()).collect();
    assert_eq!(below, vec!["A", "B"]);
    assert_eq!(tree[0].children[0].parent_id.as_deref(), Some("2"));
}

#[test]
fn menus_in_a_ring_are_left_out() {
    let tree = build_menu_tree(vec![
        make_menu(1, Some(2), "A", 0),
        make_menu(2, Some(1), "B", 0),
        make_menu(3, None, "ROOT", 0),
    ]);
    assert_eq!(tree.len(), 1);
    assert_eq!(tree[0].code, "ROOT");
}

#[test]
fn current_user_out_returns_user_with_menus() {
    let current = manager_current();
    let mut w = world_with(current.id);
    w.menus = vec![make_menu(1, None, "ROOT", 0)];
    let out = w.whoami(&current).unwrap();
    assert_eq!(out.id, current.id);
    assert_eq!(out.username, format!("user{}", current.id));
    assert_eq!(out.roles, vec!["MANAGER".to_string()]);
    assert_eq!(out.menus.len(), 1);
}

#[test]
fn current_user_out_returns_not_found_when_user_missing() {
    let mut w = world();
    assert_eq!(code_of(w.whoami(&manager_current())), ErrorCode::BizUserNotFound);
}

#[test]
fn small_parts_of_the_user_service() {
    assert_eq!(trimmed_or_none("  a b "), Some("a b".to_string()));
    assert_eq!(trimmed_or_none(" \t"), None);
    assert_eq!(user_not_found(-3).message, "user -3 not found");
}

#[test]
fn parts_of_the_menu_tree() {
    let menus = vec![
        make_menu(1, None, "ROOT", 0),
        make_menu(2, Some(1), "B", 5),
        make_menu(3, Some(1), "A", 5),
    ];
    assert_eq!(sort_ids(vec![2, 3, 1], &menus), vec![1, 3, 2]);
    let mut left = vec![1, 2, 3];
    let node = assemble_node(1, &menus, &mut left).unwrap();
    assert_eq!(node.children.len(), 2);
    assert_eq!(node.children[0].code, "A");
    assert!(left.is_empty());
}
