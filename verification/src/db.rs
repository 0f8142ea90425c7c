//! Location of the offline cache database.
use vstd::prelude::*;

use crate::downloads::paths::{path_join, path_join_exec};
use crate::text::{chars_of, string_from_chars};

verus! {

/// File name of the offline cache database inside the app-data dir.
pub const DB_FILENAME: &'static str = "cache.sqlite";

/// Resolve the default cache DB path under an app-data dir.
pub fn default_db_path(app_data_dir: &str) -> (out: String)
    ensures
        out@ == path_join(app_data_dir@, DB_FILENAME@),
{
    let r = chars_of(app_data_dir);
    let f = chars_of(DB_FILENAME);
    let p = path_join_exec(&r, &f);
    string_from_chars(&p)
}

} // verus!
