//! The few facts this library takes from the machine it runs on: how paths are
//! joined, where the user's home is, what the host is called, what time it is,
//! and how text is lower-cased. What is marked as trusted is not proved; each
//! such item says what it relies on.

use vstd::prelude::*;

verus! {

/// The path that `std::path::Path::join` gives for `base` and `name`, as text,
/// on the platform the library is built for.
pub uninterp spec fn path_join(base: Seq<char>, name: Seq<char>) -> Seq<char>;

/// The lower-case form that `str::to_lowercase` gives for `s`.
pub uninterp spec fn lowercase(s: Seq<char>) -> Seq<char>;

/// Trusted: `std::path::Path::join`. The contract claims only that the result
/// is a function of the two texts, named [`path_join`].
#[verifier::external_body]
pub(crate) fn join_path(base: &str, name: &str) -> (joined: String)
    ensures
        joined@ == path_join(base@, name@),
{
    std::path::Path::new(base).join(name).to_string_lossy().into_owned()
}

/// Trusted: `str::to_lowercase`. The contract claims only that the result is a
/// function of the text, named [`lowercase`].
#[verifier::external_body]
pub(crate) fn to_lowercase(s: &str) -> (lower: String)
    ensures
        lower@ == lowercase(s@),
{
    s.to_lowercase()
}

/// Trusted: `dirs::home_dir`. The home directory as text, where the platform
/// knows one; nothing is claimed of it.
#[verifier::external_body]
pub(crate) fn home_directory() -> (home: Option<String>) {
    dirs::home_dir().map(|p| p.to_string_lossy().into_owned())
}

/// Trusted: `hostname::get`. The machine's host name as text, where the system
/// gives one; nothing is claimed of it.
#[verifier::external_body]
pub(crate) fn system_host_name() -> (name: Option<String>) {
    hostname::get().ok().map(|n| n.to_string_lossy().into_owned())
}

/// Trusted: the type of a point in time of the system clock, carried through
/// unread.
#[verifier::external_type_specification]
#[verifier::external_body]
pub struct ExSystemTime(std::time::SystemTime);

/// Trusted: `std::time::SystemTime::now`. What the clock says; nothing is
/// claimed of it.
#[verifier::external_body]
pub(crate) fn system_clock_now() -> (now: std::time::SystemTime) {
    std::time::SystemTime::now()
}

/// Trusted: `std::time::SystemTime::duration_since`, measured from the Unix
/// epoch in milliseconds: the time that has passed, where the point in time
/// does not lie before the epoch; nothing is claimed of it.
#[verifier::external_body]
pub(crate) fn millis_since_epoch(time: &std::time::SystemTime) -> (millis: Option<u128>) {
    time.duration_since(std::time::UNIX_EPOCH).ok().map(|d| d.as_millis())
}

/// The host name to go by: the one the system gave, or none at all.
pub fn host_name_or_empty(given: Option<String>) -> (name: String)
    ensures
        name@ == (match given {
            Some(n) => n@,
            None => Seq::<char>::empty(),
        }),
{
    match given {
        Some(name) => name,
        None => String::new(),
    }
}

/// The time to go by: the one the clock gave, or the epoch itself where the
/// clock stands before it.
pub fn millis_or_zero(given: Option<u128>) -> (millis: u128)
    ensures
        millis == (match given {
            Some(m) => m,
            None => 0,
        }),
{
    match given {
        Some(millis) => millis,
        None => 0,
    }
}

/// The machine's host name, empty where the system gives none.
pub(crate) fn machine_host_name() -> (name: String) {
    host_name_or_empty(system_host_name())
}

/// The milliseconds since the Unix epoch, zero where the clock stands before
/// it.
pub(crate) fn unix_millis_now() -> (millis: u128) {
    let now = system_clock_now();
    millis_or_zero(millis_since_epoch(&now))
}

} // verus!
