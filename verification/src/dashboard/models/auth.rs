//! Logging in.

use crate::shared::objectid::ObjectId;
use vstd::prelude::*;

verus! {

#[derive(Debug, Clone)]
pub struct AuthPostBody {
    pub username: String,
    pub totp: String,
}

#[derive(Debug, Clone)]
pub struct AuthJWT {
    pub id: ObjectId,
    pub iat: i64,
    pub exp: i64,
}

#[derive(Debug, Clone)]
pub struct AuthQueryInfo {
    pub user_id: ObjectId,
}

} // verus!
