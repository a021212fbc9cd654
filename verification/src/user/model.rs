//! Stored rows of users, roles, menus and shelves.
use crate::calendar::DateTime;
use crate::text::copy_opt;
use vstd::prelude::*;

verus! {

/// A user as stored.
#[derive(Debug)]
pub struct User {
    pub id: i64,
    pub username: String,
    pub password_hash: String,
    pub full_name: String,
    pub phone: Option<String>,
    pub is_active: bool,
    pub last_login_at: Option<DateTime>,
    pub refresh_token_version: i32,
    pub version: i32,
    pub created_at: DateTime,
    pub created_by: Option<i64>,
    pub updated_at: DateTime,
    pub updated_by: Option<i64>,
    pub deleted_at: Option<DateTime>,
}

impl Clone for User {
    fn clone(&self) -> (r: Self)
        ensures
            r == *self,
    {
        User {
            id: self.id,
            username: self.username.clone(),
            password_hash: self.password_hash.clone(),
            full_name: self.full_name.clone(),
            phone: copy_opt(&self.phone),
            is_active: self.is_active,
            last_login_at: self.last_login_at,
            refresh_token_version: self.refresh_token_version,
            version: self.version,
            created_at: self.created_at,
            created_by: self.created_by,
            updated_at: self.updated_at,
            updated_by: self.updated_by,
            deleted_at: self.deleted_at,
        }
    }
}

/// A role of a user as stored.
#[derive(Debug)]
pub struct UserRole {
    pub id: i64,
    pub user_id: i64,
    pub role: String,
    pub scope_type: Option<String>,
    pub scope_id: Option<i64>,
    pub version: i32,
    pub created_at: DateTime,
    pub created_by: Option<i64>,
    pub updated_at: DateTime,
    pub updated_by: Option<i64>,
    pub deleted_at: Option<DateTime>,
}

impl Clone for UserRole {
    fn clone(&self) -> (r: Self)
        ensures
            r == *self,
    {
        UserRole {
            id: self.id,
            user_id: self.user_id,
            role: self.role.clone(),
            scope_type: copy_opt(&self.scope_type),
            scope_id: self.scope_id,
            version: self.version,
            created_at: self.created_at,
            created_by: self.created_by,
            updated_at: self.updated_at,
            updated_by: self.updated_by,
            deleted_at: self.deleted_at,
        }
    }
}

/// A menu entry as stored.
#[derive(Debug)]
pub struct Menu {
    pub id: i64,
    pub parent_id: Option<i64>,
    pub code: String,
    pub title: String,
    pub path: Option<String>,
    pub icon: Option<String>,
    pub sort_order: i32,
    pub is_active: bool,
    pub version: i32,
    pub created_at: DateTime,
    pub created_by: Option<i64>,
    pub updated_at: DateTime,
    pub updated_by: Option<i64>,
    pub deleted_at: Option<DateTime>,
}

impl Clone for Menu {
    fn clone(&self) -> (r: Self)
        ensures
            r == *self,
    {
        Menu {
            id: self.id,
            parent_id: self.parent_id,
            code: self.code.clone(),
            title: self.title.clone(),
            path: copy_opt(&self.path),
            icon: copy_opt(&self.icon),
            sort_order: self.sort_order,
            is_active: self.is_active,
            version: self.version,
            created_at: self.created_at,
            created_by: self.created_by,
            updated_at: self.updated_at,
            updated_by: self.updated_by,
            deleted_at: self.deleted_at,
        }
    }
}

/// A shelf as stored.
#[derive(Debug)]
pub struct Shelf {
    pub id: i64,
    pub code: String,
    pub name: String,
    pub zone: String,
    pub location: Option<String>,
    pub is_active: bool,
    pub display_order: i32,
    pub version: i32,
    pub created_at: DateTime,
    pub created_by: Option<i64>,
    pub updated_at: DateTime,
    pub updated_by: Option<i64>,
    pub deleted_at: Option<DateTime>,
}

impl Clone for Shelf {
    fn clone(&self) -> (r: Self)
        ensures
            r == *self,
    {
        Shelf {
            id: self.id,
            code: self.code.clone(),
            name: self.name.clone(),
            zone: self.zone.clone(),
            location: copy_opt(&self.location),
            is_active: self.is_active,
            display_order: self.display_order,
            version: self.version,
            created_at: self.created_at,
            created_by: self.created_by,
            updated_at: self.updated_at,
            updated_by: self.updated_by,
            deleted_at: self.deleted_at,
        }
    }
}

} // verus!
