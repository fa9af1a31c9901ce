//! Settings of the database that records users and their requests.
use vstd::prelude::*;
use crate::text::concat_str;

verus! {

/// The libpq-style connection string for the given host, port, user, password and
/// database name.
pub fn connection_string(host: &str, port: &str, user: &str, password: &str, dbname: &str) -> (s:
    String)
    ensures
        s@ == "host="@ + host@ + " port="@ + port@ + " user="@ + user@ + " password="@ + password@
            + " dbname="@ + dbname@,
{
    let s = concat_str("host=", host);
    let s = concat_str(s.as_str(), " port=");
    let s = concat_str(s.as_str(), port);
    let s = concat_str(s.as_str(), " user=");
    let s = concat_str(s.as_str(), user);
    let s = concat_str(s.as_str(), " password=");
    let s = concat_str(s.as_str(), password);
    let s = concat_str(s.as_str(), " dbname=");
    concat_str(s.as_str(), dbname)
}

} // verus!
