//! The settings the notifier runs with.
use vstd::prelude::*;

verus! {

/// Settings read from the environment.
pub struct Config {
    /// The notice board page.
    pub site_url: String,
    /// Connection URI of the database server.
    pub db_connection_uri: String,
    /// The database that holds the collections.
    pub database_name: String,
    /// The chat bot's token.
    pub teloxide_token: String,
}

/// The notice board page used when none is configured.
pub open spec fn spec_default_site_url() -> Seq<char> {
    "https://cgu-odisha.ac.in/notice/"@
}

/// The notice board page used when none is configured.
pub fn default_site_url() -> (r: String)
    ensures
        r@ == spec_default_site_url(),
{
    String::from_str("https://cgu-odisha.ac.in/notice/")
}

} // verus!
