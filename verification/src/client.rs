use vstd::prelude::*;
use crate::text::{decimal_text, push_decimal, push_signed_decimal, signed_decimal_text, str_eq};

verus! {

/// The message for a signup form with an empty field.
pub open spec fn empty_field_text() -> Seq<char> {
    "No field may be empty."@
}

/// The message for a signup form whose passwords differ.
pub open spec fn mismatch_text() -> Seq<char> {
    "The passwords do not match."@
}

/// Checks a signup form before it is sent: no field may be empty, and the
/// password must be typed the same twice.
pub fn validate_signup(username: &str, password: &str, password2: &str) -> (res: Result<(), String>)
    ensures
        (username@.len() == 0 || password@.len() == 0 || password2@.len() == 0) ==> (res matches Err(
            e,
        ) && e@ == empty_field_text()),
        !(username@.len() == 0 || password@.len() == 0 || password2@.len() == 0) && password@
            != password2@ ==> (res matches Err(e) && e@ == mismatch_text()),
        res is Ok <==> (username@.len() != 0 && password@.len() != 0 && password2@.len() != 0
            && password@ == password2@),
{
    if username.is_empty() || password.is_empty() || password2.is_empty() {
        return Err(String::from_str("No field may be empty."));
    }
    if !str_eq(password, password2) {
        return Err(String::from_str("The passwords do not match."));
    }
    Ok(())
}

/// The message a client shows for a server error that no caller handles
/// itself, from the status code and the server's message.
pub open spec fn server_error_text(status: u16, resp: Seq<char>) -> Seq<char> {
    if status == 401 {
        "The key failed to be used, please re-login: "@ + resp
    } else if status == 500 {
        "INTERNAL SERVER ERROR: "@ + resp
    } else {
        "The server returned an unexpected error code "@ + decimal_text(status as nat) + ": "@
            + resp
    }
}

/// The message a client shows for a failed request with status `status` and
/// server message `resp`: the statuses in `handled` show the server's message
/// as it is; the others get a general description.
pub fn rewrap_status(status: u16, resp: &str, handled: &Vec<u16>) -> (res: String)
    ensures
        handled@.contains(status) ==> res@ == resp@,
        !handled@.contains(status) ==> res@ == server_error_text(status, resp@),
{
    let mut i: usize = 0;
    while i < handled.len()
        invariant
            i <= handled@.len(),
            forall|k: int| 0 <= k < i ==> handled@[k] != status,
        decreases handled@.len() - i,
    {
        if handled[i] == status {
            return String::from_str(resp);
        }
        i = i + 1;
    }
    if status == 401 {
        let mut m = String::from_str("The key failed to be used, please re-login: ");
        m.append(resp);
        m
    } else if status == 500 {
        let mut m = String::from_str("INTERNAL SERVER ERROR: ");
        m.append(resp);
        m
    } else {
        let mut m = String::from_str("The server returned an unexpected error code ");
        push_decimal(&mut m, status as u64);
        m.append(": ");
        m.append(resp);
        m
    }
}

/// The message shown for the body of a failed response: the `error` field of
/// the server's JSON when it could be read, or else what went wrong reading it.
/// `body` is the body as text, or the text of the error reading it; `parsed`
/// is the `error` field, or the text of the error parsing the JSON.
pub fn error_body_text(body: Result<String, String>, parsed: Result<String, String>) -> (res: String)
    ensures
        body matches Err(e) ==> res@ == "Error could not be decoded: "@ + e@,
        body matches Ok(raw) ==> (parsed matches Ok(m) ==> res@ == m@),
        body matches Ok(raw) ==> (parsed matches Err(e) ==> res@
            == "Error message could not be extracted: "@ + e@ + ". Original message: "@ + raw@),
{
    match body {
        Err(e) => {
            let mut m = String::from_str("Error could not be decoded: ");
            m.append(e.as_str());
            m
        },
        Ok(raw) => match parsed {
            Ok(m) => m,
            Err(e) => {
                let mut m = String::from_str("Error message could not be extracted: ");
                m.append(e.as_str());
                m.append(". Original message: ");
                m.append(raw.as_str());
                m
            },
        },
    }
}

/// The text shown before a track's title in an album listing.
pub open spec fn track_prefix_text(disk: Option<i64>, track: Option<i64>) -> Seq<char> {
    match (disk, track) {
        (_, None) => Seq::empty(),
        (None, Some(t)) => signed_decimal_text(t as int) + ". "@,
        (Some(d), Some(t)) => signed_decimal_text(d as int) + "-"@ + signed_decimal_text(t as int)
            + ". "@,
    }
}

/// The text shown before a track's title in an album listing: nothing without
/// a track number, `track. `, or `disk-track. ` when the disk is known too.
pub fn track_prefix(disk: Option<i64>, track: Option<i64>) -> (res: String)
    ensures
        res@ == track_prefix_text(disk, track),
{
    match (disk, track) {
        (_, None) => String::new(),
        (None, Some(t)) => {
            let mut s = String::new();
            push_signed_decimal(&mut s, t);
            s.append(". ");
            s
        },
        (Some(d), Some(t)) => {
            let mut s = String::new();
            push_signed_decimal(&mut s, d);
            s.append("-");
            push_signed_decimal(&mut s, t);
            s.append(". ");
            s
        },
    }
}

/// The line an album listing shows for a track: its number prefix, its title,
/// and its artist's name, or `?` when the artist is unknown.
pub fn album_track_line(disk: Option<i64>, track: Option<i64>, title: &str, artist: &Option<String>) -> (res: String)
    ensures
        artist matches Some(a) ==> res@ == track_prefix_text(disk, track) + title@ + " - "@ + a@,
        artist is None ==> res@ == track_prefix_text(disk, track) + title@ + " - ?"@,
{
    let mut s = track_prefix(disk, track);
    s.append(title);
    match artist {
        Some(a) => {
            s.append(" - ");
            s.append(a.as_str());
        },
        None => {
            s.append(" - ?");
        },
    }
    s
}

} // verus!
