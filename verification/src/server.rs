use vstd::prelude::*;
use crate::error::MioInnerError;
use crate::ids::{uuid_string, uuid_text};

verus! {

/// Nanoseconds in a week: the lifetime of the server's signing secret.
pub open spec fn week_nanos() -> u128 {
    604_800_000_000_000
}

/// How long the secret refresh task waits, given how long ago the secret file
/// was last written (`None` when the clock shows it written in the future):
/// that time, or nothing when it is more than a week.
pub fn secret_wait(elapsed: Option<u128>) -> (res: u128)
    ensures
        elapsed is None ==> res == 0,
        elapsed matches Some(d) ==> res == (if d > week_nanos() { 0 } else { d }),
{
    match elapsed {
        None => 0,
        Some(d) => if d > 604800 * 1_000_000_000 { 0 } else { d },
    }
}

/// How reading the stored secret went.
#[derive(Clone, Copy, PartialEq, Eq, Structural, Debug)]
pub enum SecretRead {
    /// The read returned this many bytes.
    Read(usize),
    /// The file ended before the secret was complete.
    UnexpectedEof,
    /// Any other read error.
    Failed,
}

/// Whether the secret read from disk is kept (`true`) or a new one is made
/// (`false`): a new one is made when the file was short. Any other read error
/// stops the server, so it is not handled here.
pub fn keep_stored_secret(read: SecretRead, size: usize) -> (keep: bool)
    requires
        read != SecretRead::Failed,
    ensures
        keep == (read matches SecretRead::Read(n) && n == size),
{
    match read {
        SecretRead::Read(n) => n == size,
        _ => false,
    }
}

/// The checks before a folder is moved: the source must exist and be a
/// directory, and the destination must not exist. `old_shown` and `new_shown`
/// are the requested paths as the error messages show them.
pub fn rename_checks(old_exists: bool, old_is_dir: bool, new_exists: bool, old_shown: String, new_shown: String) -> (res: Result<(), MioInnerError>)
    ensures
        !old_exists ==> (res matches Err(MioInnerError::NotFound(m)) && m@ == old_shown@),
        old_exists && !old_is_dir ==> (res matches Err(MioInnerError::ExtIoError(m, c)) && c == 400
            && m@ == "the directory specified is not a directory"@),
        old_exists && old_is_dir && new_exists ==> (res matches Err(MioInnerError::Conflict(m))
            && m@ == new_shown@),
        res is Ok <==> old_exists && old_is_dir && !new_exists,
{
    if !old_exists {
        return Err(MioInnerError::NotFound(old_shown));
    }
    if !old_is_dir {
        return Err(
            MioInnerError::ExtIoError(
                String::from_str("the directory specified is not a directory"),
                400,
            ),
        );
    }
    if new_exists {
        return Err(MioInnerError::Conflict(new_shown));
    }
    Ok(())
}

/// The error for a folder that could not be created: a conflict naming the
/// folder when it already exists, an internal error otherwise.
pub fn create_dir_error(already_exists: bool, name: String, io_text: String) -> (res: MioInnerError)
    ensures
        already_exists ==> (res matches MioInnerError::Conflict(m) && m@ == name@),
        !already_exists ==> (res matches MioInnerError::IntIoError(m) && m@ == io_text@),
{
    if already_exists {
        MioInnerError::Conflict(name)
    } else {
        MioInnerError::IntIoError(io_text)
    }
}

/// The check before a folder is deleted: it must be empty. `shown` is the
/// folder's path as the error message shows it.
pub fn delete_check(has_items: bool, shown: &str) -> (res: Result<(), MioInnerError>)
    ensures
        res is Ok <==> !has_items,
        has_items ==> (res matches Err(MioInnerError::ExtIoError(m, c)) && c == 400 && m@
            == "Directory "@ + shown@ + " has items, please remove them."@),
{
    if has_items {
        let mut m = String::from_str("Directory ");
        m.append(shown);
        m.append(" has items, please remove them.");
        Err(MioInnerError::ExtIoError(m, 400))
    } else {
        Ok(())
    }
}

/// The error of an upload whose body stopped: after a timeout, or with the
/// error `err_text` of the stream. It is a track processing error with status 400.
pub fn chunk_failure(timed_out: bool, err_text: &str) -> (res: MioInnerError)
    ensures
        timed_out ==> (res matches MioInnerError::TrackProcessingError(m, c) && c == 400 && m@
            == "failed to stream chunk: upload timeout hit"@),
        !timed_out ==> (res matches MioInnerError::TrackProcessingError(m, c) && c == 400 && m@
            == "failed to stream chunk: chunk streaming error: "@ + err_text@),
{
    if timed_out {
        MioInnerError::TrackProcessingError(
            String::from_str("failed to stream chunk: upload timeout hit"),
            400,
        )
    } else {
        let mut m = String::from_str("failed to stream chunk: chunk streaming error: ");
        m.append(err_text);
        MioInnerError::TrackProcessingError(m, 400)
    }
}

/// The error of a track stream whose file could not be read: when the file is
/// missing although the database lists it, a not-found error naming the track
/// and its owner; any other failure is an internal error with `io_text`.
pub fn stream_read_error(not_found: bool, id: u128, userid: u128, io_text: String) -> (res: MioInnerError)
    ensures
        not_found ==> (res matches MioInnerError::NotFound(m) && m@ == uuid_text(id) + " under "@
            + uuid_text(userid) + " does not exist, despite the db saying it exists."@),
        !not_found ==> (res matches MioInnerError::IntIoError(m) && m@ == io_text@),
{
    if not_found {
        let mut m = uuid_string(id);
        m.append(" under ");
        let u = uuid_string(userid);
        m.append(u.as_str());
        m.append(" does not exist, despite the db saying it exists.");
        MioInnerError::NotFound(m)
    } else {
        MioInnerError::IntIoError(io_text)
    }
}

} // verus!
