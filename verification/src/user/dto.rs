//! Requests and answers about users.
use crate::auth::Role;
use crate::calendar::DateTime;
use crate::text::copy_opt;
use vstd::prelude::*;

verus! {

/// A role as the client gets it.
#[derive(Debug)]
pub struct UserRoleOut {
    pub id: i64,
    pub version: i32,
    pub role: String,
    pub scope_type: Option<String>,
    pub scope_id: Option<String>,
    pub shelf_code: Option<String>,
    pub shelf_name: Option<String>,
}

impl Clone for UserRoleOut {
    fn clone(&self) -> (r: Self)
        ensures
            r == *self,
    {
        UserRoleOut {
            id: self.id,
            version: self.version,
            role: self.role.clone(),
            scope_type: copy_opt(&self.scope_type),
            scope_id: copy_opt(&self.scope_id),
            shelf_code: copy_opt(&self.shelf_code),
            shelf_name: copy_opt(&self.shelf_name),
        }
    }
}

/// A user as the client gets it.
#[derive(Debug, Clone)]
pub struct UserOut {
    pub id: i64,
    pub version: i32,
    pub username: String,
    pub full_name: String,
    pub phone: Option<String>,
    pub is_active: bool,
    pub last_login_at: Option<DateTime>,
    pub created_at: DateTime,
    pub updated_at: DateTime,
    pub roles: Vec<UserRoleOut>,
}

/// A menu entry with the entries below it.
#[derive(Debug)]
pub struct MenuNodeOut {
    pub id: i64,
    pub version: i32,
    pub parent_id: Option<String>,
    pub code: String,
    pub title: String,
    pub path: Option<String>,
    pub icon: Option<String>,
    pub sort_order: i32,
    pub children: Vec<MenuNodeOut>,
}

/// The caller as the client gets it.
#[derive(Debug)]
pub struct CurrentUserOut {
    pub id: i64,
    pub username: String,
    pub full_name: String,
    pub is_active: bool,
    pub roles: Vec<String>,
    pub shelf_ids: Vec<String>,
    pub menus: Vec<MenuNodeOut>,
}

#[derive(Debug, Clone)]
pub struct UserListOut {
    pub items: Vec<UserOut>,
    pub total: i64,
    pub limit: i64,
    pub offset: i64,
}

#[derive(Debug, Clone)]
pub struct UserCreateRequest {
    pub username: String,
    pub password: String,
    pub full_name: String,
    pub phone: Option<String>,
}

/// What is absent stays as it is. An empty phone number clears it.
#[derive(Debug, Clone)]
pub struct UserUpdateRequest {
    pub full_name: Option<String>,
    pub phone: Option<String>,
    pub password: Option<String>,
    pub is_active: Option<bool>,
}

#[derive(Debug, Clone)]
pub struct UserListQuery {
    pub username_like: Option<String>,
    pub is_active: Option<bool>,
    pub limit: Option<i64>,
    pub offset: Option<i64>,
}

#[derive(Debug, Clone)]
pub struct UserAddRoleRequest {
    pub role: Role,
    pub scope_type: Option<String>,
    pub scope_id: Option<i64>,
}

#[derive(Debug, Clone)]
pub struct ChangePasswordRequest {
    pub old_password: String,
    pub new_password: String,
}

} // verus!
