//! Configuration: the file that this build does not read, and the choice
//! of the device identifier.

use vstd::prelude::*;

verus! {

/// What a configuration file would yield.
#[derive(Debug)]
pub struct Config {
    pub device_id: String,
}

/// Why no configuration was read.
#[derive(Clone, Copy, Debug, PartialEq, Eq, Structural)]
pub enum ConfigError {
    /// This build reads no configuration files.
    Unsupported,
}

/// Reads the configuration file at `file_path`. This build reads no
/// configuration files: every path is refused.
pub fn read_config(file_path: &str) -> (r: Result<(Config, bool), ConfigError>)
    ensures
        r is Err,
        r->Err_0 == ConfigError::Unsupported,
{
    Err(ConfigError::Unsupported)
}

/// A device identifier, and whether it was made up just now and is still
/// to be stored.
#[derive(Debug)]
pub struct DeviceId {
    pub id: String,
    pub fresh: bool,
}

/// The length of a UUID in its hyphenated form.
pub const UUID_LEN: usize = 36;

/// The device identifier, given the machine's own identifier if it has
/// one, whether the application's home directory is known, what the
/// identifier file there holds if it can be read, and an identifier that
/// was made up for the case that all of these fail. The machine's own
/// identifier comes first. Without it and without a home directory the
/// identifier is empty. Otherwise it is what the file holds, and without
/// the file the one that was made up, which is then to be stored.
pub open spec fn device_id_of(
    unique: Option<Seq<char>>,
    home: bool,
    stored: Option<Seq<char>>,
    made_up: Seq<char>,
) -> (Seq<char>, bool) {
    match unique {
        Some(id) => (id, false),
        None => if !home {
            (Seq::empty(), false)
        } else {
            match stored {
                Some(id) => (id, false),
                None => (made_up, true),
            }
        },
    }
}

/// The view of an optional string.
pub open spec fn text(s: Option<String>) -> Option<Seq<char>> {
    match s {
        Some(s) => Some(s@),
        None => None,
    }
}

/// `Uuid::new_v4` with `to_string`: a random UUID in its hyphenated form,
/// which is 36 characters long. Which UUID it is depends on the operating
/// system's random numbers; the call panics where the system cannot
/// supply any.
#[verifier::external_body]
fn new_uuid() -> (id: String)
    ensures
        id@.len() == UUID_LEN,
{
    uuid::Uuid::new_v4().to_string()
}

/// Chooses the device identifier among what is at hand; `made_up` is used
/// only where nothing else is.
pub fn pick_device_id(
    unique: Option<String>,
    home: bool,
    stored: Option<String>,
    made_up: String,
) -> (r: DeviceId)
    ensures
        (r.id@, r.fresh) == device_id_of(text(unique), home, text(stored), made_up@),
{
    match unique {
        Some(id) => DeviceId { id, fresh: false },
        None => {
            if !home {
                DeviceId { id: String::new(), fresh: false }
            } else {
                match stored {
                    Some(id) => DeviceId { id, fresh: false },
                    None => DeviceId { id: made_up, fresh: true },
                }
            }
        },
    }
}

/// The device identifier: the machine's own if it has one; else empty if
/// the home directory is unknown; else what the identifier file holds;
/// else a random UUID, which is then to be stored in that file.
pub fn get_device_id(unique: Option<String>, home: bool, stored: Option<String>) -> (r: DeviceId)
    ensures
        unique is Some || !home || stored is Some ==> (r.id@, r.fresh) == device_id_of(
            text(unique),
            home,
            text(stored),
            Seq::empty(),
        ),
        unique is None && home && stored is None ==> r.fresh && r.id@.len() == UUID_LEN,
{
    if unique.is_none() && home && stored.is_none() {
        pick_device_id(unique, home, stored, new_uuid())
    } else {
        pick_device_id(unique, home, stored, String::new())
    }
}

} // verus!
