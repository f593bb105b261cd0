//! Operator configuration: identities, auth keys, and the set-command logic.

use vstd::prelude::*;
use vstd::string::StringExecFns;
use crate::args::ConfigKeys;
use crate::types::User;
use crate::types::clone_opt_string;
use crate::types::opt_str_view;

verus! {

/// Which signing algorithm the operator configured for session tokens.
pub enum JWTKeyType {
    HS512,
    RSA,
}

impl Default for JWTKeyType {
    fn default() -> (r: Self)
        ensures
            r is HS512,
    {
        JWTKeyType::HS512
    }
}

/// Operator-supplied configuration, read-only to the session protocol.
pub struct Config {
    pub openai_apikey: Option<String>,
    pub login_required: Option<bool>,
    pub users: Option<Vec<User>>,
    pub jwt_key_type: Option<JWTKeyType>,
    pub jwt_hs512_key: Option<String>,
    pub db_path: Option<String>,
    pub project_folder: Option<String>,
}

impl Config {
    /// An empty configuration: nothing set, so login is not required.
    pub fn new() -> (r: Config)
        ensures
            r.openai_apikey is None,
            r.login_required is None,
            r.users is None,
            r.jwt_key_type is None,
            r.jwt_hs512_key is None,
            r.db_path is None,
            r.project_folder is None,
    {
        Config {
            openai_apikey: None,
            login_required: None,
            users: None,
            jwt_key_type: None,
            jwt_hs512_key: None,
            db_path: None,
            project_folder: None,
        }
    }
}

/// The build version reported to authenticated clients.
pub fn get_version() -> (r: String)
    ensures
        r@ == "CUTE_PUPPY"@,
{
    String::from_str("CUTE_PUPPY")
}
/// Why a configuration set-command was rejected.
pub enum ConfigError {
    InvalidValue,
}

/// Entries other than the addressed key keep their values.
pub open spec fn only_key_changed(a: Config, b: Config, key: ConfigKeys) -> bool {
    &&& (!(key is OpenaiApikey) ==> b.openai_apikey == a.openai_apikey)
    &&& (!(key is LoginRequired) ==> b.login_required == a.login_required)
    &&& (!(key is HS512Key) ==> b.jwt_hs512_key == a.jwt_hs512_key)
    &&& (!(key is ProjectFolder) ==> b.project_folder == a.project_folder)
    &&& b.users == a.users
    &&& b.db_path == a.db_path
    &&& b.jwt_key_type == a.jwt_key_type
}

/// Applies one set-command to the configuration. A boolean entry
/// accepts exactly the words `true` and `false`; anything else is
/// rejected and nothing changes.
pub fn apply_set(config: &mut Config, key: ConfigKeys, value: String) -> (r: Result<
    (),
    ConfigError,
>)
    ensures
        only_key_changed(*old(config), *final(config), key),
        key is OpenaiApikey ==> r is Ok && final(config).openai_apikey == Some(value),
        key is HS512Key ==> r is Ok && final(config).jwt_hs512_key == Some(value),
        key is ProjectFolder ==> r is Ok && final(config).project_folder == Some(value),
        key is LoginRequired && value@ == "true"@ ==> r is Ok && final(config).login_required
            == Some(true),
        key is LoginRequired && value@ == "false"@ ==> r is Ok && final(config).login_required
            == Some(false),
        key is LoginRequired && value@ != "true"@ && value@ != "false"@ ==> r is Err
            && final(config).login_required == old(config).login_required,
{
    match key {
        ConfigKeys::OpenaiApikey => {
            config.openai_apikey = Some(value);
            Result::Ok(())
        },
        ConfigKeys::HS512Key => {
            config.jwt_hs512_key = Some(value);
            Result::Ok(())
        },
        ConfigKeys::ProjectFolder => {
            config.project_folder = Some(value);
            Result::Ok(())
        },
        ConfigKeys::LoginRequired => {
            proof {
                reveal_strlit("true");
                reveal_strlit("false");
                assert("true"@.len() == 4);
                assert("false"@.len() == 5);
                assert("true"@ != "false"@);
            }
            if crate::text::str_eq(value.as_str(), "true") {
                config.login_required = Some(true);
                Result::Ok(())
            } else if crate::text::str_eq(value.as_str(), "false") {
                config.login_required = Some(false);
                Result::Ok(())
            } else {
                Result::Err(ConfigError::InvalidValue)
            }
        },
    }
}

/// Reads one configuration entry, as the get-command shows it.
pub fn config_get(config: &Config, key: ConfigKeys) -> (r: Option<String>)
    ensures
        key is OpenaiApikey ==> opt_str_view(r) == opt_str_view(config.openai_apikey),
        key is HS512Key ==> opt_str_view(r) == opt_str_view(config.jwt_hs512_key),
        key is ProjectFolder ==> opt_str_view(r) == opt_str_view(config.project_folder),
        key is LoginRequired ==> ({
            match config.login_required {
                Option::Some(b) => r matches Some(s) && s@ == (if b {
                    "true"@
                } else {
                    "false"@
                }),
                Option::None => r is None,
            }
        }),
{
    match key {
        ConfigKeys::OpenaiApikey => clone_opt_string(&config.openai_apikey),
        ConfigKeys::HS512Key => clone_opt_string(&config.jwt_hs512_key),
        ConfigKeys::ProjectFolder => clone_opt_string(&config.project_folder),
        ConfigKeys::LoginRequired => match &config.login_required {
            Option::Some(b) => {
                if *b {
                    Some(String::from_str("true"))
                } else {
                    Some(String::from_str("false"))
                }
            },
            Option::None => None,
        },
    }
}

/// Adds one login identity to the configured user list, creating the
/// list when none exists yet.
pub fn add_user(config: &mut Config, username: String, password: String)
    ensures
        final(config).users matches Some(us) && ({
            let prior = match old(config).users {
                Option::Some(prior) => prior@,
                Option::None => Seq::<User>::empty(),
            };
            us@ =~= prior.push(User { username, password })
        }),
        final(config).openai_apikey == old(config).openai_apikey,
        final(config).login_required == old(config).login_required,
        final(config).jwt_hs512_key == old(config).jwt_hs512_key,
        final(config).project_folder == old(config).project_folder,
{
    let user = User { username, password };
    let users = config.users.take();
    match users {
        Option::Some(mut us) => {
            us.push(user);
            config.users = Some(us);
        },
        Option::None => {
            let mut us: Vec<User> = Vec::new();
            us.push(user);
            config.users = Some(us);
        },
    }
}

} // verus!
