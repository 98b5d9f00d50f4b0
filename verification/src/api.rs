//! What the HTTP endpoints answer, decided from the outcome of the storage
//! operation behind each of them.

use vstd::prelude::*;

verus! {

/// The body of a `POST /api/multi/disband` request.
#[derive(Debug, Clone, Copy, PartialEq, Eq)]
pub struct DisbandRequest {
    pub match_id: u16,
}

/// The answer of a reading endpoint: the HTTP status and the JSON fields
/// `success`, `message` (left out when `None`) and `data` (left out when `None`).
#[derive(Debug, Clone)]
pub struct ApiReply<T> {
    pub status: u16,
    pub success: bool,
    pub message: Option<String>,
    pub data: Option<T>,
}

/// The answer of a writing endpoint: the HTTP status and the JSON fields
/// `success`, `game_id` (only after a round was recorded) and `error`
/// (only on failure).
#[derive(Debug, Clone)]
pub struct WriteReply {
    pub status: u16,
    pub success: bool,
    pub game_id: Option<i64>,
    pub error: Option<String>,
}

/// The answer to a listing or a statistics request: the data with status 200,
/// or status 500 with the storage error's text.
pub fn read_reply<T>(outcome: Result<T, String>) -> (r: ApiReply<T>)
    ensures
        r.success <==> r.status == 200,
        match outcome {
            Ok(d) => r.status == 200 && r.message is None && r.data == Some(d),
            Err(e) => r.status == 500 && r.message == Some(e) && r.data is None,
        },
{
    match outcome {
        Ok(d) => ApiReply { status: 200, success: true, message: None, data: Some(d) },
        Err(e) => ApiReply { status: 500, success: false, message: Some(e), data: None },
    }
}

pub open spec fn room_not_found_text() -> Seq<char> {
    "Room not found"@
}

/// The answer to a request for one room: the room with status 200, status 404
/// with `Room not found` when there is no such room, or status 500 with the
/// storage error's text.
pub fn lookup_reply<T>(outcome: Result<Option<T>, String>) -> (r: ApiReply<T>)
    ensures
        r.success <==> r.status == 200,
        match outcome {
            Ok(Some(d)) => r.status == 200 && r.message is None && r.data == Some(d),
            Ok(None) => r.status == 404 && r.data is None && (r.message matches Some(m) && m@
                == room_not_found_text()),
            Err(e) => r.status == 500 && r.message == Some(e) && r.data is None,
        },
{
    match outcome {
        Ok(Some(d)) => ApiReply { status: 200, success: true, message: None, data: Some(d) },
        Ok(None) => ApiReply {
            status: 404,
            success: false,
            message: Some(String::from_str("Room not found")),
            data: None,
        },
        Err(e) => ApiReply { status: 500, success: false, message: Some(e), data: None },
    }
}

/// The answer to a room update or a room removal: success with status 200,
/// or status 500 with the storage error's text.
pub fn write_reply(outcome: Result<(), String>) -> (r: WriteReply)
    ensures
        r.success <==> r.status == 200,
        r.game_id is None,
        match outcome {
            Ok(_) => r.status == 200 && r.error is None,
            Err(e) => r.status == 500 && r.error == Some(e),
        },
{
    match outcome {
        Ok(_) => WriteReply { status: 200, success: true, game_id: None, error: None },
        Err(e) => WriteReply { status: 500, success: false, game_id: None, error: Some(e) },
    }
}

/// The answer to a finished round: success with the new round's id and
/// status 200, or status 500 with the storage error's text.
pub fn finish_reply(outcome: Result<i64, String>) -> (r: WriteReply)
    ensures
        r.success <==> r.status == 200,
        match outcome {
            Ok(id) => r.status == 200 && r.game_id == Some(id) && r.error is None,
            Err(e) => r.status == 500 && r.game_id is None && r.error == Some(e),
        },
{
    match outcome {
        Ok(id) => WriteReply { status: 200, success: true, game_id: Some(id), error: None },
        Err(e) => WriteReply { status: 500, success: false, game_id: None, error: Some(e) },
    }
}

} // verus!
