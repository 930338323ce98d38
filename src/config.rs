//! Where the program keeps its settings, and the name of its database file.
use vstd::prelude::*;
use vstd::string::StringExecFns;

use crate::text::{alphanumeric_char, is_alphanumeric};

verus! {

/// The program's settings.
#[derive(Debug)]
pub struct Config {
    pub database_file: Option<String>,
}

impl Default for Config {
    fn default() -> (r: Config)
        ensures
            r.database_file is None,
    {
        Config { database_file: None }
    }
}

/// The settings file used when no other is named.
pub fn default_config_path() -> (r: String)
    ensures
        r@ == "config.json"@,
{
    "config.json".to_owned()
}

/// A database name is non-empty, made of letters, digits and underscores,
/// and holds no dot.
pub open spec fn valid_database_name(s: Seq<char>) -> bool {
    &&& s.len() > 0
    &&& forall|i: int| 0 <= i < s.len() ==> alphanumeric_char(#[trigger] s[i]) || s[i] == '_'
    &&& forall|i: int| 0 <= i < s.len() ==> #[trigger] s[i] != '.'
}

pub fn is_valid_database_name(db_name: &str) -> (r: bool)
    ensures
        r == valid_database_name(db_name@),
{
    let n = db_name.unicode_len();
    if n == 0 {
        return false;
    }
    let mut i: usize = 0;
    while i < n
        invariant
            n == db_name@.len(),
            0 <= i <= n,
            forall|k: int|
                0 <= k < i ==> alphanumeric_char(#[trigger] db_name@[k]) || db_name@[k] == '_',
            forall|k: int| 0 <= k < i ==> #[trigger] db_name@[k] != '.',
        decreases n - i,
    {
        let c = db_name.get_char(i);
        if !(is_alphanumeric(c) || c == '_') || c == '.' {
            return false;
        }
        i = i + 1;
    }
    true
}

/// The file that holds the database of this name.
pub fn database_file_name(db_name: &str) -> (r: String)
    ensures
        r@ == db_name@ + ".sqlite"@,
{
    let mut file = db_name.to_owned();
    file.append(".sqlite");
    file
}

} // verus!
