//! Rows that are read and written about users and their roles.
use crate::calendar::DateTime;
use crate::text::copy_opt;
use vstd::prelude::*;

verus! {

/// A role of a user with the shelf that it is for.
#[derive(Debug)]
pub struct UserRoleRow {
    pub id: i64,
    pub user_id: i64,
    pub role: String,
    pub scope_type: Option<String>,
    pub scope_id: Option<i64>,
    pub version: i32,
    pub created_at: DateTime,
    pub created_by: Option<i64>,
    pub updated_at: DateTime,
    pub updated_by: Option<i64>,
    pub deleted_at: Option<DateTime>,
    pub shelf_code: Option<String>,
    pub shelf_name: Option<String>,
}

impl Clone for UserRoleRow {
    fn clone(&self) -> (r: Self)
        ensures
            r == *self,
    {
        UserRoleRow {
            id: self.id,
            user_id: self.user_id,
            role: self.role.clone(),
            scope_type: copy_opt(&self.scope_type),
            scope_id: self.scope_id,
            version: self.version,
            created_at: self.created_at,
            created_by: self.created_by,
            updated_at: self.updated_at,
            updated_by: self.updated_by,
            deleted_at: self.deleted_at,
            shelf_code: copy_opt(&self.shelf_code),
            shelf_name: copy_opt(&self.shelf_name),
        }
    }
}

/// A user to be stored.
#[derive(Debug, Clone)]
pub struct UserInsert {
    pub id: i64,
    pub username: String,
    pub password_hash: String,
    pub full_name: String,
    pub phone: Option<String>,
    pub is_active: bool,
    pub created_at: DateTime,
    pub created_by: Option<i64>,
}

/// A role to be stored.
#[derive(Debug, Clone)]
pub struct UserRoleInsert {
    pub id: i64,
    pub user_id: i64,
    pub role: String,
    pub scope_type: Option<String>,
    pub scope_id: Option<i64>,
    pub created_at: DateTime,
    pub created_by: Option<i64>,
}

/// What of a user is changed. A part that is absent stays as it is, but for the
/// phone number, which `set_phone` decides on.
#[derive(Debug, Clone)]
pub struct UserPatch {
    pub full_name: Option<String>,
    pub set_phone: bool,
    pub phone: Option<String>,
    pub password_hash: Option<String>,
    pub is_active: Option<bool>,
}

/// The table of users.
pub struct UserRepo;

/// The table of the roles of users.
pub struct UserRoleRepo;

/// The table of menus.
pub struct MenuRepo;

/// The table of shelves, as far as roles refer to it.
pub struct ShelfRepo;

} // verus!
