//! How the database is reached.

use vstd::prelude::*;

verus! {

/// Where the database is and who logs in.
#[derive(Debug)]
pub struct ClickHouseSettings {
    pub url: String,
    pub user: String,
    pub password: String,
    pub database: String,
}

/// The value of a variable, or its default if it is not set.
pub open spec fn value_or(variable: Option<String>, default: Seq<char>) -> Seq<char> {
    match variable {
        Some(value) => value@,
        None => default,
    }
}

fn or_default(variable: Option<String>, default: &str) -> (r: String)
    ensures
        r@ == value_or(variable, default@),
{
    match variable {
        Some(value) => value,
        None => default.to_string(),
    }
}

impl ClickHouseSettings {
    /// The settings from the environment variables for the URL, the user, the password and
    /// the database, each with its default where it is not set.
    pub fn from_variables(
        url: Option<String>,
        user: Option<String>,
        password: Option<String>,
        database: Option<String>,
    ) -> (r: ClickHouseSettings)
        ensures
            r.url@ == value_or(url, "http://localhost:8123"@),
            r.user@ == value_or(user, "inserter_user"@),
            r.password@ == value_or(password, "inserter_pass"@),
            r.database@ == value_or(database, "hft_dashboard"@),
    {
        ClickHouseSettings {
            url: or_default(url, "http://localhost:8123"),
            user: or_default(user, "inserter_user"),
            password: or_default(password, "inserter_pass"),
            database: or_default(database, "hft_dashboard"),
        }
    }

    /// Whether the default user or the default password is in use.
    pub fn has_default_credentials(&self) -> (r: bool)
        ensures
            r == (self.user@ == "inserter_user"@ || self.password@ == "inserter_pass"@),
    {
        self.user == "inserter_user".to_string() || self.password == "inserter_pass".to_string()
    }
}

/// A variable that is set counts, whatever it holds; the default counts only where it is not
/// set.
pub proof fn variables_win(variable: String, default: Seq<char>)
    ensures
        value_or(Some(variable), default) == variable@,
        value_or(None, default) == default,
{
}

} // verus!
