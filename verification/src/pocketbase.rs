//! The service that lists the upcoming events: where it is asked, what one
//! of its records holds, and when its answer counts.

use vstd::prelude::*;
use crate::calendar::Timestamp;
use crate::event::text_of;

verus! {

/// One event as the service reports it.
#[derive(Clone, Debug, PartialEq, Eq)]
pub struct ApiEvent {
    pub id: String,
    pub title: String,
    /// The description, as HTML.
    pub description: String,
    pub start_time: Timestamp,
    pub end_time: Timestamp,
    pub location: String,
    pub location_url: Option<String>,
    /// The address of the event's image.
    pub image: Option<String>,
    pub thumbnail: Option<String>,
    pub category: String,
    pub is_featured: bool,
    pub recurring_type: Option<String>,
    pub created_at: Timestamp,
    pub updated_at: Timestamp,
}

/// What an [`ApiEvent`] holds, as mathematical values.
pub struct ApiEventView {
    pub id: Seq<char>,
    pub title: Seq<char>,
    pub description: Seq<char>,
    pub start_time: Timestamp,
    pub end_time: Timestamp,
    pub location: Seq<char>,
    pub location_url: Option<Seq<char>>,
    pub image: Option<Seq<char>>,
    pub thumbnail: Option<Seq<char>>,
    pub category: Seq<char>,
    pub is_featured: bool,
    pub recurring_type: Option<Seq<char>>,
    pub created_at: Timestamp,
    pub updated_at: Timestamp,
}

impl View for ApiEvent {
    type V = ApiEventView;

    open spec fn view(&self) -> ApiEventView {
        ApiEventView {
            id: self.id@,
            title: self.title@,
            description: self.description@,
            start_time: self.start_time,
            end_time: self.end_time,
            location: self.location@,
            location_url: text_of(self.location_url),
            image: text_of(self.image),
            thumbnail: text_of(self.thumbnail),
            category: self.category@,
            is_featured: self.is_featured,
            recurring_type: text_of(self.recurring_type),
            created_at: self.created_at,
            updated_at: self.updated_at,
        }
    }
}

/// After how many seconds a request to the service is given up.
pub const API_TIMEOUT_SECS: u64 = 10;

/// The path under which the service lists the upcoming events.
pub open spec fn upcoming_path() -> Seq<char> {
    "/api/events/upcoming"@
}

/// The address at which the service at `base_url` lists the upcoming events.
pub fn events_url(base_url: &str) -> (url: String)
    ensures
        url@ == base_url@ + upcoming_path(),
{
    let mut url = base_url.to_owned();
    url.append("/api/events/upcoming");
    url
}

/// Why an answer of the service does not count.
#[derive(Clone, Copy, Debug, PartialEq, Eq, Structural)]
pub enum ApiError {
    /// The service has answered that the request failed.
    Refused,
}

impl ApiError {
    /// The error in words.
    pub fn message(&self) -> (text: String)
        ensures
            text@ == "API request failed"@,
    {
        "API request failed".to_owned()
    }
}

/// The records of an answer of the service. An answer counts where the
/// service marks it as a success; its records are then handed on as they
/// are.
pub fn accept_response(success: bool, data: Vec<ApiEvent>) -> (records: Result<
    Vec<ApiEvent>,
    ApiError,
>)
    ensures
        success ==> records == Ok::<Vec<ApiEvent>, ApiError>(data),
        !success ==> records == Err::<Vec<ApiEvent>, ApiError>(ApiError::Refused),
{
    if success {
        Ok(data)
    } else {
        Err(ApiError::Refused)
    }
}

} // verus!
