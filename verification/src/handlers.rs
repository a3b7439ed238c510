//! The record endpoints: which row a request body describes, and what each
//! endpoint answers for each outcome of the database call.

use crate::database::{DatabaseError, Request};
use crate::reply::{
    has_json_message, Reply, ReplyBody, STATUS_CREATED, STATUS_INTERNAL_SERVER_ERROR,
    STATUS_NOT_FOUND, STATUS_OK,
};
use vstd::prelude::*;
use vstd::string::StringExecFns;

verus! {

/// The body of a create request.
pub struct CreateData {
    pub value: i32,
    pub response_body: String,
}

/// The body of an update request.
pub struct UpdateData {
    pub id: i32,
    pub value: i32,
    pub response_body: String,
}

/// The row a create request describes; its id is left to the database (0).
pub fn request_from_create(data: CreateData) -> (request: Request)
    ensures
        request.id == 0,
        request.generated_value == data.value,
        request.response_body == data.response_body,
{
    Request { id: 0, generated_value: data.value, response_body: data.response_body }
}

/// The row an update request describes.
pub fn request_from_update(data: UpdateData) -> (request: Request)
    ensures
        request.id == data.id,
        request.generated_value == data.value,
        request.response_body == data.response_body,
{
    Request { id: data.id, generated_value: data.value, response_body: data.response_body }
}

/// The answer to a create request: 201 when the row was stored, 500 otherwise.
pub fn create_reply(outcome: &Result<(), DatabaseError>) -> (reply: Reply)
    ensures
        outcome is Ok ==> reply.status == STATUS_CREATED && has_json_message(
            reply,
            "Request created"@,
        ),
        outcome is Err ==> reply.status == STATUS_INTERNAL_SERVER_ERROR && has_json_message(
            reply,
            "Error creating request"@,
        ),
{
    match outcome {
        Ok(_) => Reply {
            status: STATUS_CREATED,
            body: ReplyBody::JsonMessage(String::from_str("Request created")),
        },
        Err(_) => Reply {
            status: STATUS_INTERNAL_SERVER_ERROR,
            body: ReplyBody::JsonMessage(String::from_str("Error creating request")),
        },
    }
}

/// The answer to a read request: 200 with the row when it was found, 404
/// otherwise, whatever the error.
pub fn read_reply(outcome: Result<Request, DatabaseError>) -> (reply: Reply)
    ensures
        match outcome {
            Ok(r) => reply.status == STATUS_OK && reply.body == ReplyBody::JsonRecord(r),
            Err(_) => reply.status == STATUS_NOT_FOUND && has_json_message(
                reply,
                "Request not found"@,
            ),
        },
{
    match outcome {
        Ok(request) => Reply { status: STATUS_OK, body: ReplyBody::JsonRecord(request) },
        Err(_) => Reply {
            status: STATUS_NOT_FOUND,
            body: ReplyBody::JsonMessage(String::from_str("Request not found")),
        },
    }
}

/// The answer to an update request: 200 when the row was updated, 500 otherwise.
pub fn update_reply(outcome: &Result<(), DatabaseError>) -> (reply: Reply)
    ensures
        outcome is Ok ==> reply.status == STATUS_OK && has_json_message(
            reply,
            "Request updated"@,
        ),
        outcome is Err ==> reply.status == STATUS_INTERNAL_SERVER_ERROR && has_json_message(
            reply,
            "Error updating request"@,
        ),
{
    match outcome {
        Ok(_) => Reply {
            status: STATUS_OK,
            body: ReplyBody::JsonMessage(String::from_str("Request updated")),
        },
        Err(_) => Reply {
            status: STATUS_INTERNAL_SERVER_ERROR,
            body: ReplyBody::JsonMessage(String::from_str("Error updating request")),
        },
    }
}

/// The answer to a delete request: 200 when the row was deleted, 500 otherwise.
pub fn delete_reply(outcome: &Result<(), DatabaseError>) -> (reply: Reply)
    ensures
        outcome is Ok ==> reply.status == STATUS_OK && has_json_message(
            reply,
            "Request deleted"@,
        ),
        outcome is Err ==> reply.status == STATUS_INTERNAL_SERVER_ERROR && has_json_message(
            reply,
            "Error deleting request"@,
        ),
{
    match outcome {
        Ok(_) => Reply {
            status: STATUS_OK,
            body: ReplyBody::JsonMessage(String::from_str("Request deleted")),
        },
        Err(_) => Reply {
            status: STATUS_INTERNAL_SERVER_ERROR,
            body: ReplyBody::JsonMessage(String::from_str("Error deleting request")),
        },
    }
}

} // verus!
