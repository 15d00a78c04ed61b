//! Process configuration, as plain values.
use vstd::prelude::*;

use crate::hasher::{hash_password, password_matches, HashingError};
use crate::records::{Credential, Profile, Role};

verus! {

/// Where the web server listens.
#[derive(Debug, Clone)]
pub struct WebserverConfig {
    pub ip_port: String,
}

/// How to reach the database.
#[derive(Debug, Clone)]
pub struct DatabaseConfig {
    pub db_name: String,
    pub user: String,
    pub password: String,
    pub port: String,
}

/// The account seeded at startup.
#[derive(Debug, Clone)]
pub struct AdminAuthConfig {
    pub uuid_auth: u128,
    pub uuid_uuser: u128,
    pub email: String,
    pub password: String,
}

/// The mail relay used to deliver one-time codes.
#[derive(Debug, Clone)]
pub struct EmailConfig {
    pub sender_email: String,
    pub smtp: String,
    pub username: String,
    pub password: String,
}

/// The whole configuration.
#[derive(Debug, Clone)]
pub struct Config {
    pub webserver: WebserverConfig,
    pub database: DatabaseConfig,
    pub admin: AdminAuthConfig,
    pub email: EmailConfig,
}

/// The profile and credential of the seeded operator account, its password
/// hashed for a host with `cores` cores. It fails only when there are no
/// cores or the password is too long for argon2.
pub fn admin_records(config: &AdminAuthConfig, cores: u32) -> (r: Result<
    (Profile, Credential),
    HashingError,
>)
    ensures
        cores == 0 ==> r is Err,
        cores > 0 && config.password@.len() <= 0x3FFF_FFFF ==> r is Ok,
        r is Ok ==> {
            let (p, c) = r->Ok_0;
            &&& p.id == config.uuid_uuser
            &&& p.email@ == config.email@
            &&& p.role == Role::Operator
            &&& c.id == config.uuid_auth
            &&& c.user == config.uuid_uuser
            &&& password_matches(config.password@, c.phc_string@)
        },
{
    let phc_string = match hash_password(config.password.as_str(), cores) {
        Ok(h) => h,
        Err(e) => return Err(e),
    };
    let profile = Profile { id: config.uuid_uuser, email: config.email.clone(), role: Role::Operator };
    let credential = Credential { id: config.uuid_auth, user: config.uuid_uuser, phc_string };
    Ok((profile, credential))
}

} // verus!
