//! Where the rows are written.

use crate::vars::{read_text, text_or};
use vstd::prelude::*;

verus! {

/// The values of the environment variables of the writer.
#[derive(Clone, Debug)]
pub struct WriterVars {
    pub url: Option<String>,
    pub db: Option<String>,
    /// Older name of `db`.
    pub database: Option<String>,
    pub user: Option<String>,
    pub password: Option<String>,
}

/// Connection settings of the writer.
#[derive(Clone, Debug)]
pub struct WriterSettings {
    pub url: String,
    pub database: String,
    pub user: String,
    pub password: String,
}

impl WriterSettings {
    /// Each variable, or its default where it is unset.
    pub fn from_vars(vars: &WriterVars) -> (r: Self)
        ensures
            r.url@ == text_or(vars.url, "http://127.0.0.1:8123"@),
            r.database@ == text_or(vars.db, text_or(vars.database, "quantum"@)),
            r.user@ == text_or(vars.user, "qs_user"@),
            r.password@ == text_or(vars.password, "qs_pass"@),
    {
        let database = match &vars.db {
            Some(s) => s.clone(),
            None => read_text(&vars.database, "quantum"),
        };
        WriterSettings {
            url: read_text(&vars.url, "http://127.0.0.1:8123"),
            database,
            user: read_text(&vars.user, "qs_user"),
            password: read_text(&vars.password, "qs_pass"),
        }
    }
}

} // verus!
