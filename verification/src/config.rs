//! The database configuration.
use vstd::prelude::*;

use crate::text::Text;

verus! {

/// How the server reaches its database, and the key by which it signs.
#[derive(Debug, PartialEq, Eq)]
pub struct DatabaseConfig {
    pub dialect: String,
    pub host: String,
    pub port: u16,
    pub database: String,
    pub user: String,
    pub password: String,
    pub app_key: String,
}

/// The mathematical model of a `DatabaseConfig`.
#[verifier::ext_equal]
pub struct ConfigView {
    pub dialect: Text,
    pub host: Text,
    pub port: u16,
    pub database: Text,
    pub user: Text,
    pub password: Text,
    pub app_key: Text,
}

impl View for DatabaseConfig {
    type V = ConfigView;

    open spec fn view(&self) -> ConfigView {
        ConfigView {
            dialect: self.dialect@,
            host: self.host@,
            port: self.port,
            database: self.database@,
            user: self.user@,
            password: self.password@,
            app_key: self.app_key@,
        }
    }
}

/// A lower-case hexadecimal digit.
pub open spec fn is_hex_digit(c: char) -> bool {
    '0' <= c <= '9' || 'a' <= c <= 'f'
}

/// A random identifier in its hyphenated form: five groups of hexadecimal digits, with the
/// version digit 4 and a variant digit of 8, 9, a or b.
pub open spec fn is_random_id(t: Text) -> bool {
    &&& t.len() == 36
    &&& forall|i: int|
        0 <= i < 36 ==> if i == 8 || i == 13 || i == 18 || i == 23 {
            #[trigger] t[i] == '-'
        } else {
            is_hex_digit(t[i])
        }
    &&& t[14] == '4'
    &&& (t[19] == '8' || t[19] == '9' || t[19] == 'a' || t[19] == 'b')
}

/// The configuration of a fresh installation whose key is `app_key`.
pub open spec fn default_config(app_key: Text) -> ConfigView {
    ConfigView {
        dialect: "postgres"@,
        host: "127.0.0.1"@,
        port: 5432,
        database: "nocobase"@,
        user: "nocobase"@,
        password: Seq::empty(),
        app_key,
    }
}

/// Calls `uuid::Uuid::new_v4` and formats what it returns. Trusted: the text is the
/// lower-case hyphenated form of a version 4 identifier. Which one it is rests on chance,
/// so nothing more is stated; the call panics where the system has no randomness to give.
#[verifier::external_body]
pub(crate) fn fresh_id() -> (r: String)
    ensures
        is_random_id(r@),
{
    uuid::Uuid::new_v4().to_string()
}

impl DatabaseConfig {
    /// The configuration of a fresh installation, with the key `app_key`.
    pub fn with_app_key(app_key: String) -> (r: DatabaseConfig)
        ensures
            r@ == default_config(app_key@),
    {
        DatabaseConfig {
            dialect: "postgres".to_owned(),
            host: "127.0.0.1".to_owned(),
            port: 5432,
            database: "nocobase".to_owned(),
            user: "nocobase".to_owned(),
            password: String::new(),
            app_key,
        }
    }
}

impl Default for DatabaseConfig {
    /// The configuration of a fresh installation, with a random key of its own.
    fn default() -> (r: DatabaseConfig)
        ensures
            is_random_id(r@.app_key),
            r@ == default_config(r@.app_key),
    {
        DatabaseConfig::with_app_key(fresh_id())
    }
}

impl Clone for DatabaseConfig {
    fn clone(&self) -> (r: DatabaseConfig)
        ensures
            r@ == self@,
    {
        DatabaseConfig {
            dialect: self.dialect.clone(),
            host: self.host.clone(),
            port: self.port,
            database: self.database.clone(),
            user: self.user.clone(),
            password: self.password.clone(),
            app_key: self.app_key.clone(),
        }
    }
}

/// A configuration made for a key has the documented values and that key.
pub proof fn law_fresh_configuration_has_the_documented_values(key: String, r: DatabaseConfig)
    requires
        call_ensures(DatabaseConfig::with_app_key, (key,), r),
    ensures
        r.dialect@ == "postgres"@,
        r.host@ == "127.0.0.1"@,
        r.port == 5432,
        r.database@ == "nocobase"@,
        r.user@ == "nocobase"@,
        r.password@.len() == 0,
        r.app_key@ == key@,
{
}

/// The same of its model.
pub proof fn law_default_configuration(key: Text)
    ensures
        default_config(key).dialect == "postgres"@,
        default_config(key).host == "127.0.0.1"@,
        default_config(key).port == 5432,
        default_config(key).database == "nocobase"@,
        default_config(key).user == "nocobase"@,
        default_config(key).password.len() == 0,
        default_config(key).app_key == key,
{
}

/// A random identifier has thirty-six characters: hyphens at four places, the version and the
/// variant at two, and lower-case hexadecimal digits everywhere else.
pub proof fn law_random_identifier_has_its_form(t: Text)
    ensures
        is_random_id(t) <==> {
            &&& t.len() == 36
            &&& t[8] == '-' && t[13] == '-' && t[18] == '-' && t[23] == '-'
            &&& t[14] == '4'
            &&& t[19] == '8' || t[19] == '9' || t[19] == 'a' || t[19] == 'b'
            &&& forall|i: int|
                0 <= i < 36 && i != 8 && i != 13 && i != 18 && i != 23 ==> ('0' <= #[trigger] t[i]
                    <= '9' || 'a' <= t[i] <= 'f')
        },
{
}

/// The configuration of a fresh installation has the documented values, and its key is a random
/// identifier.
pub proof fn law_default_has_a_key_of_its_own(r: DatabaseConfig)
    requires
        call_ensures(<DatabaseConfig as Default>::default, (), r),
    ensures
        is_random_id(r.app_key@),
        r.dialect@ == "postgres"@,
        r.host@ == "127.0.0.1"@,
        r.port == 5432,
        r.database@ == "nocobase"@,
        r.user@ == "nocobase"@,
        r.password@.len() == 0,
{
}

} // verus!
