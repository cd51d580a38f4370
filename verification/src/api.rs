//! What the daemon is asked and what it answers.

use vstd::prelude::*;
use crate::models::event::{ActivityType, EventType};

verus! {

/// A request to record one event. `metadata` is JSON text.
#[derive(Debug, Clone)]
pub struct CreateEventRequest {
    pub timestamp: i64,
    pub event_type: EventType,
    pub entity: String,
    pub project: Option<String>,
    pub language: Option<String>,
    pub branch: Option<String>,
    pub activity: Option<ActivityType>,
    pub machine: Option<String>,
    pub metadata: Option<String>,
}

#[derive(Debug, Clone)]
pub struct BatchEventRequest {
    pub events: Vec<CreateEventRequest>,
}

#[derive(Debug, Clone)]
pub struct EventResponse {
    pub id: i64,
    pub timestamp: i64,
    pub event_type: EventType,
    pub entity: String,
}

#[derive(Debug, Clone, Copy, PartialEq, Eq, Structural)]
pub struct BatchEventResponse {
    pub accepted: usize,
    pub rejected: usize,
}

#[derive(Debug, Clone)]
pub struct CreateApiKeyRequest {
    pub label: String,
}

#[derive(Debug, Clone)]
pub struct CreateApiKeyResponse {
    pub id: u128,
    pub label: String,
    pub key: String,
}

#[derive(Debug, Clone)]
pub struct ErrorResponse {
    pub error: String,
}

#[derive(Debug, Clone)]
pub struct HealthResponse {
    pub status: String,
    pub version: String,
}

#[derive(Debug, Clone)]
pub struct StatusResponse {
    pub status: String,
    pub version: String,
    pub user_count: i64,
    pub event_count: i64,
}

#[derive(Debug, Clone)]
pub struct WatchRequest {
    pub path: String,
}

#[derive(Debug, Clone)]
pub struct UnwatchRequest {
    pub path: String,
}

#[derive(Debug, Clone)]
pub struct WatchActionResponse {
    pub message: String,
}

#[derive(Debug, Clone)]
pub struct WatchedDirResponse {
    pub path: String,
    pub added_at: i64,
}

#[derive(Debug, Clone)]
pub struct WatchedResponse {
    pub dirs: Vec<WatchedDirResponse>,
}

/// The answer to a health check of a daemon of the given version.
pub fn health(version: &str) -> (response: HealthResponse)
    ensures
        response.status@ == "ok"@,
        response.version@ == version@,
{
    HealthResponse { status: "ok".to_owned(), version: version.to_owned() }
}

/// The answer to a status request. A count that could not be had counts as
/// zero.
pub fn status(version: &str, user_count: Option<i64>, event_count: Option<i64>) -> (response:
    StatusResponse)
    ensures
        response.status@ == "ok"@,
        response.version@ == version@,
        response.user_count == match user_count {
            Some(n) => n,
            None => 0,
        },
        response.event_count == match event_count {
            Some(n) => n,
            None => 0,
        },
{
    StatusResponse {
        status: "ok".to_owned(),
        version: version.to_owned(),
        user_count: match user_count {
            Some(n) => n,
            None => 0,
        },
        event_count: match event_count {
            Some(n) => n,
            None => 0,
        },
    }
}

/// The status and body that answer an error.
pub fn error_response(e: &crate::error::AppError) -> (answer: (u16, ErrorResponse))
    ensures
        answer.0 == e@.status(),
        answer.1.error@ == e@.detail(),
{
    (e.status_code(), ErrorResponse { error: e.detail() })
}

} // verus!
