//! Shared pieces of the durable collection store: the error kinds every
//! store operation can surface, and the fixed on-disk locations under the
//! application data directory.

use vstd::prelude::*;
use vstd::string::*;
use crate::ext::home_dir;

verus! {

/// Why a store operation failed.
///
/// `NotFound` means the home directory could not be resolved. `CorruptState`
/// means a persisted file exists but does not parse as the expected schema;
/// it carries the character offset at which parsing stopped.
#[derive(Clone, Copy, PartialEq, Eq, Structural, Debug)]
pub enum StoreError {
    NotFound,
    CorruptState(usize),
}

impl StoreError {
    /// A human-readable description of the failure.
    pub fn message(&self) -> String {
        match self {
            StoreError::NotFound => String::from_str("could not find home directory"),
            StoreError::CorruptState(at) => {
                let mut m = String::from_str("stored file is corrupt near character ");
                let d = crate::text::u64_to_dec(*at as u64);
                m.append(d.as_str());
                m
            },
        }
    }
}

/// Whether `t` is a suffix of `s`.
pub open spec fn str_ends_with(s: Seq<char>, t: Seq<char>) -> bool {
    s.len() >= t.len() && s.subrange(s.len() - t.len(), s.len() as int) == t
}

/// The path of one collection file inside the application data directory
/// under the given home directory.
pub fn data_file_path(home: &str, file: &str) -> (r: String)
    ensures
        r@ == home@ + "/.omnitrade/"@ + file@,
{
    let mut s = home.to_owned();
    s.append("/.omnitrade/");
    s.append(file);
    s
}

/// The application data directory, if a home directory can be resolved.
pub fn omnitrade_dir() -> (r: Result<String, StoreError>)
    ensures
        r matches Ok(p) ==> str_ends_with(p@, "/.omnitrade"@),
        r matches Err(e) ==> e == StoreError::NotFound,
{
    match home_dir() {
        Some(h) => {
            let mut s = h;
            s.append("/.omnitrade");
            proof {
                assert(s@.subrange(s@.len() - "/.omnitrade"@.len(), s@.len() as int) =~= "/.omnitrade"@);
            }
            Ok(s)
        },
        None => Err(StoreError::NotFound),
    }
}

/// The path of the named collection file, if a home directory can be
/// resolved.
pub fn data_path(file: &str) -> (r: Result<String, StoreError>)
    ensures
        r matches Ok(p) ==> str_ends_with(p@, "/.omnitrade/"@ + file@),
        r matches Err(e) ==> e == StoreError::NotFound,
{
    match home_dir() {
        Some(h) => {
            let p = data_file_path(h.as_str(), file);
            proof {
                let t = "/.omnitrade/"@ + file@;
                assert(p@.subrange(p@.len() - t.len(), p@.len() as int) =~= t);
            }
            Ok(p)
        },
        None => Err(StoreError::NotFound),
    }
}

} // verus!
