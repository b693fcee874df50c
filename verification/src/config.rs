//! Runtime configuration, decided from the environment variables the process
//! was started with.

use vstd::prelude::*;

use crate::text::{append_str, str_eq};

verus! {

/// Runtime configuration, read once at startup.
#[derive(Debug)]
pub struct Config {
    pub region: String,
    pub user_pool_id: String,
    pub client_id: String,
    /// Only set when the app client is configured with a secret.
    pub client_secret: Option<String>,
    /// Members of this group may use the admin screens.
    pub admin_group: String,
    /// Ignored when the Lambda runtime is hosting the process.
    pub bind: String,
    /// Force the Secure attribute on cookies. `None` derives it per request
    /// from the scheme, so plain-HTTP local use works without configuration.
    pub secure_cookies: Option<bool>,
}

/// The environment variables the configuration is read from, as they were
/// found (`None` when unset).
pub struct EnvVars {
    pub aws_region: Option<String>,
    pub cognito_user_pool_id: Option<String>,
    pub cognito_client_id: Option<String>,
    pub cognito_client_secret: Option<String>,
    pub cognito_admin_group: Option<String>,
    pub bind_addr: Option<String>,
    pub secure_cookies: Option<String>,
}

/// A variable that is set to something: unset and empty read alike.
pub open spec fn given(value: Option<String>) -> Option<Seq<char>> {
    match value {
        Some(v) if v@.len() > 0 => Some(v@),
        _ => None,
    }
}

/// The message for a required variable that is missing.
pub open spec fn missing_message(name: Seq<char>) -> Seq<char> {
    "Missing environment variable "@ + name + ". See .env.example."@
}

/// `value`, or what is wrong with it when the variable `name` is required.
pub fn required(name: &str, value: Option<String>) -> (r: Result<String, String>)
    ensures
        match given(value) {
            Some(v) => r matches Ok(s) && s@ == v,
            None => r matches Err(m) && m@ == missing_message(name@),
        },
{
    match value {
        Some(v) if v.as_str().unicode_len() > 0 => Ok(v),
        _ => {
            let mut message = String::from_str("Missing environment variable ");
            append_str(&mut message, name);
            append_str(&mut message, ". See .env.example.");
            Err(message)
        },
    }
}

fn optional(value: Option<String>) -> (r: Option<String>)
    ensures
        match given(value) {
            Some(v) => r matches Some(s) && s@ == v,
            None => r is None,
        },
{
    match value {
        Some(v) if v.as_str().unicode_len() > 0 => Some(v),
        _ => None,
    }
}

/// How SECURE_COOKIES reads: `1`, `true` and `yes` force Secure on, any other
/// value forces it off.
pub open spec fn secure_setting(value: Seq<char>) -> bool {
    value == "1"@ || value == "true"@ || value == "yes"@
}

impl Config {
    /// The configuration the variables describe, or the message naming the
    /// first required one (region, pool, client, in that order) that is
    /// missing.
    pub fn from_vars(vars: EnvVars) -> (r: Result<Config, String>)
        ensures
            given(vars.aws_region) is None ==> (r matches Err(m) && m@ == missing_message("AWS_REGION"@)),
            given(vars.aws_region) is Some && given(vars.cognito_user_pool_id) is None ==> (r matches Err(m)
                && m@ == missing_message("COGNITO_USER_POOL_ID"@)),
            given(vars.aws_region) is Some && given(vars.cognito_user_pool_id) is Some && given(
                vars.cognito_client_id,
            ) is None ==> (r matches Err(m) && m@ == missing_message("COGNITO_CLIENT_ID"@)),
            r matches Ok(c) ==> {
                &&& given(vars.aws_region) == Some(c.region@)
                &&& given(vars.cognito_user_pool_id) == Some(c.user_pool_id@)
                &&& given(vars.cognito_client_id) == Some(c.client_id@)
                &&& match given(vars.cognito_client_secret) {
                    Some(s) => c.client_secret matches Some(t) && t@ == s,
                    None => c.client_secret is None,
                }
                &&& c.admin_group@ == match given(vars.cognito_admin_group) {
                    Some(g) => g,
                    None => "admin"@,
                }
                &&& c.bind@ == match given(vars.bind_addr) {
                    Some(b) => b,
                    None => "127.0.0.1:3000"@,
                }
                &&& c.secure_cookies == match given(vars.secure_cookies) {
                    Some(v) => Some(secure_setting(v)),
                    None => None,
                }
            },
            (given(vars.aws_region) is Some && given(vars.cognito_user_pool_id) is Some && given(
                vars.cognito_client_id,
            ) is Some) ==> r is Ok,
    {
        let region = required("AWS_REGION", vars.aws_region)?;
        let user_pool_id = required("COGNITO_USER_POOL_ID", vars.cognito_user_pool_id)?;
        let client_id = required("COGNITO_CLIENT_ID", vars.cognito_client_id)?;
        let client_secret = optional(vars.cognito_client_secret);
        let admin_group = match optional(vars.cognito_admin_group) {
            Some(g) => g,
            None => String::from_str("admin"),
        };
        let bind = match optional(vars.bind_addr) {
            Some(b) => b,
            None => String::from_str("127.0.0.1:3000"),
        };
        let secure_cookies = match optional(vars.secure_cookies) {
            Some(v) => Some(
                str_eq(v.as_str(), "1") || str_eq(v.as_str(), "true") || str_eq(v.as_str(), "yes"),
            ),
            None => None,
        };
        Ok(Config {
            region,
            user_pool_id,
            client_id,
            client_secret,
            admin_group,
            bind,
            secure_cookies,
        })
    }
}

} // verus!
