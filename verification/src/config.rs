//! Process configuration: where the document store lives and which
//! tokens uploading game servers must present. Loading and saving the
//! configuration file is I/O and lives outside this crate; the default
//! configuration is built here, with its randomly drawn server token.

use vstd::prelude::*;

use rand::Rng;

verus! {

/// An ASCII letter or digit.
pub open spec fn is_ascii_alnum(c: char) -> bool {
    ('a' <= c && c <= 'z') || ('A' <= c && c <= 'Z') || ('0' <= c && c <= '9')
}

/// Relies on rand's `thread_rng` sampling the `Alphanumeric`
/// distribution, which draws uniformly from ASCII letters and digits:
/// the token holds exactly 64 such characters. Nothing further can be
/// promised of a random value.
#[verifier::external_body]
fn random_alphanumeric_token() -> (r: String)
    ensures
        r@.len() == 64,
        forall|i: int| 0 <= i < r@.len() ==> is_ascii_alnum(r@[i]),
{
    rand::thread_rng().sample_iter(&rand::distributions::Alphanumeric).take(64).map(
        char::from,
    ).collect()
}

/// Process configuration: the store's address, the database name, the
/// port the API serves on, and the authorization tokens game servers
/// must present.
#[derive(Clone, Debug)]
pub struct Config {
    pub database_url: String,
    pub database_name: String,
    pub api_port: u16,
    pub server_tokens: Vec<String>,
}

impl Default for Config {
    /// A localhost configuration guarding uploads with one freshly drawn
    /// 64-character token.
    fn default() -> (c: Config)
        ensures
            c.database_url@ == "mongodb://localhost/"@,
            c.database_name@ == "nucleoid_players"@,
            c.api_port == 3030,
            c.server_tokens@.len() == 1,
            c.server_tokens@[0]@.len() == 64,
    {
        let token = random_alphanumeric_token();
        let mut tokens: Vec<String> = Vec::new();
        tokens.push(token);
        Config {
            database_url: "mongodb://localhost/".to_owned(),
            database_name: "nucleoid_players".to_owned(),
            api_port: 3030,
            server_tokens: tokens,
        }
    }
}

} // verus!
