//! One upcoming occurrence, as it is shown on a slide.

use vstd::prelude::*;
use crate::calendar::{clock_text, day_text, format_clock, format_day, Timestamp};
use crate::order::{is_stable_sort_of, sort_by_start};
use crate::pocketbase::{ApiEvent, ApiEventView};
use crate::text::{collapse_whitespace, collapsed};

verus! {

/// An upcoming occurrence, ready for display.
#[derive(Clone, Debug, PartialEq, Eq)]
pub struct Event {
    pub id: String,
    pub title: String,
    /// The description as plain text, its words one space apart.
    pub description: String,
    /// The time of day at which the event starts.
    pub start_time: String,
    /// The time of day at which the event ends.
    pub end_time: String,
    /// The day on which the event starts.
    pub date: String,
    pub location: String,
    pub image_url: Option<String>,
    pub category: String,
    /// The instant at which the event starts; events are shown in this order.
    pub timestamp: Timestamp,
    /// The instant at which the event ends.
    pub end_timestamp: Timestamp,
}

/// What an [`Event`] holds, as mathematical values.
pub struct EventView {
    pub id: Seq<char>,
    pub title: Seq<char>,
    pub description: Seq<char>,
    pub start_time: Seq<char>,
    pub end_time: Seq<char>,
    pub date: Seq<char>,
    pub location: Seq<char>,
    pub image_url: Option<Seq<char>>,
    pub category: Seq<char>,
    pub timestamp: Timestamp,
    pub end_timestamp: Timestamp,
}

/// The characters of an optional string.
pub open spec fn text_of(text: Option<String>) -> Option<Seq<char>> {
    match text {
        Some(s) => Some(s@),
        None => None,
    }
}

impl View for Event {
    type V = EventView;

    open spec fn view(&self) -> EventView {
        EventView {
            id: self.id@,
            title: self.title@,
            description: self.description@,
            start_time: self.start_time@,
            end_time: self.end_time@,
            date: self.date@,
            location: self.location@,
            image_url: text_of(self.image_url),
            category: self.category@,
            timestamp: self.timestamp,
            end_timestamp: self.end_timestamp,
        }
    }
}

/// The views of a list of events, in the list's order.
pub open spec fn views(events: Seq<Event>) -> Seq<EventView> {
    events.map_values(|e: Event| e@)
}

/// Whether some event of `events` has the image address `url`.
pub open spec fn shows_image(events: Seq<EventView>, url: Seq<char>) -> bool {
    exists|i: int| 0 <= i < events.len() && (#[trigger] events[i]).image_url == Some(url)
}

/// Whether some event of `events` has the image address `url`.
pub fn any_shows_image(events: &Vec<Event>, url: &String) -> (found: bool)
    ensures
        found == shows_image(views(events@), url@),
{
    let mut i: usize = 0;
    while i < events.len()
        invariant
            i <= events.len(),
            forall|j: int| 0 <= j < i ==> (#[trigger] views(events@)[j]).image_url != Some(url@),
        decreases events.len() - i,
    {
        match &events[i].image_url {
            Some(candidate) => {
                if *candidate == *url {
                    assert(views(events@)[i as int].image_url == Some(url@));
                    return true;
                }
            },
            None => {},
        }
        i += 1;
    }
    false
}

/// The width of the lines into which a description is rendered as plain
/// text, in columns.
pub const RENDER_WIDTH: usize = 80;

/// Why a record of the service cannot be shown.
#[derive(Clone, Copy, Debug, PartialEq, Eq, Structural)]
pub enum ConvertError {
    /// The description could not be rendered as plain text.
    Description,
    /// The instant at which the event starts has no date.
    StartTime,
    /// The instant at which the event ends has no date.
    EndTime,
}

/// The event that shows `record` with the given texts.
pub open spec fn assembled(
    record: ApiEventView,
    description: Seq<char>,
    date: Seq<char>,
    start_time: Seq<char>,
    end_time: Seq<char>,
) -> EventView {
    EventView {
        id: record.id,
        title: record.title,
        description,
        start_time,
        end_time,
        date,
        location: record.location,
        image_url: record.image,
        category: record.category,
        timestamp: record.start_time,
        end_timestamp: record.end_time,
    }
}

/// The event that shows `record`, or why there is none. `rendered` is the
/// record's description as the renderer has written it out, or nothing where
/// it could not; the event's description is its words, one space apart. The
/// day and the time of day at which the event starts, and the time of day at
/// which it ends, are written out.
pub open spec fn converted(record: ApiEventView, rendered: Option<Seq<char>>) -> Result<
    EventView,
    ConvertError,
> {
    if rendered is None {
        Err(ConvertError::Description)
    } else if day_text(record.start_time) is None || clock_text(record.start_time) is None {
        Err(ConvertError::StartTime)
    } else if clock_text(record.end_time) is None {
        Err(ConvertError::EndTime)
    } else {
        Ok(
            assembled(
                record,
                collapsed(rendered->0),
                day_text(record.start_time)->0,
                clock_text(record.start_time)->0,
                clock_text(record.end_time)->0,
            ),
        )
    }
}

/// What a list of records and their rendered descriptions holds, as
/// mathematical values.
pub open spec fn rendered_views(records: Seq<(ApiEvent, Option<String>)>) -> Seq<
    (ApiEventView, Option<Seq<char>>),
> {
    records.map_values(|r: (ApiEvent, Option<String>)| (r.0@, text_of(r.1)))
}

/// The events that show `records`, where each record can be shown.
pub open spec fn all_converted(records: Seq<(ApiEventView, Option<Seq<char>>)>) -> Seq<
    EventView,
> {
    records.map_values(|r: (ApiEventView, Option<Seq<char>>)| converted(r.0, r.1)->Ok_0)
}

impl Event {
    /// The event that shows `record` with the given texts.
    pub fn assemble(
        record: ApiEvent,
        description: String,
        date: String,
        start_time: String,
        end_time: String,
    ) -> (event: Event)
        ensures
            event@ == assembled(record@, description@, date@, start_time@, end_time@),
    {
        Event {
            id: record.id,
            title: record.title,
            description,
            start_time,
            end_time,
            date,
            location: record.location,
            image_url: record.image,
            category: record.category,
            timestamp: record.start_time,
            end_timestamp: record.end_time,
        }
    }

    /// The event that shows `record`. `rendered` is the record's description
    /// as the renderer has written it out, in lines of [`RENDER_WIDTH`]
    /// columns, or nothing where it could not.
    pub fn from_api(record: ApiEvent, rendered: Option<String>) -> (event: Result<
        Event,
        ConvertError,
    >)
        ensures
            match event {
                Ok(e) => converted(record@, text_of(rendered)) == Ok::<EventView, ConvertError>(e@),
                Err(error) => converted(record@, text_of(rendered)) == Err::<
                    EventView,
                    ConvertError,
                >(error),
            },
    {
        let description = match rendered {
            Some(text) => collapse_whitespace(text.as_str()),
            None => {
                return Err(ConvertError::Description);
            },
        };
        let date = match format_day(record.start_time) {
            Some(text) => text,
            None => {
                return Err(ConvertError::StartTime);
            },
        };
        let start_time = match format_clock(record.start_time) {
            Some(text) => text,
            None => {
                return Err(ConvertError::StartTime);
            },
        };
        let end_time = match format_clock(record.end_time) {
            Some(text) => text,
            None => {
                return Err(ConvertError::EndTime);
            },
        };
        Ok(Event::assemble(record, description, date, start_time, end_time))
    }
}

/// The events that show `records`, in the order in which they are shown.
/// Each record comes with its description as the renderer has written it
/// out, or with nothing where it could not. The events come back exactly
/// where every description has been rendered and every instant has a date;
/// otherwise the error is that of the first record that cannot be shown.
pub fn events_from_api(records: Vec<(ApiEvent, Option<String>)>) -> (events: Result<
    Vec<Event>,
    ConvertError,
>)
    ensures
        match events {
            Ok(shown) => {
                &&& forall|i: int|
                    0 <= i < records@.len() ==> converted(
                        (#[trigger] rendered_views(records@)[i]).0,
                        rendered_views(records@)[i].1,
                    ) is Ok
                &&& is_stable_sort_of(views(shown@), all_converted(rendered_views(records@)))
            },
            Err(error) => exists|i: int|
                {
                    &&& 0 <= i < records@.len()
                    &&& converted(
                        (#[trigger] rendered_views(records@)[i]).0,
                        rendered_views(records@)[i].1,
                    ) == Err::<EventView, ConvertError>(error)
                    &&& forall|j: int|
                        0 <= j < i ==> converted(
                            (#[trigger] rendered_views(records@)[j]).0,
                            rendered_views(records@)[j].1,
                        ) is Ok
                },
        },
{
    let ghost given = rendered_views(records@);
    let mut events: Vec<Event> = Vec::new();
    assert(views(events@) =~= all_converted(given.subrange(0, 0)));
    for pair in it: records
        invariant
            it.seq() == records@,
            given == rendered_views(records@),
            forall|i: int|
                0 <= i < it.index() ==> converted((#[trigger] given[i]).0, given[i].1) is Ok,
            views(events@) == all_converted(given.subrange(0, it.index() as int)),
    {
        let ghost at = it.index() as int;
        let ghost before = events@;
        assert(given[at] == (pair.0@, text_of(pair.1)));
        let (record, rendered) = pair;
        match Event::from_api(record, rendered) {
            Ok(event) => {
                events.push(event);
                assert(views(events@) =~= all_converted(given.subrange(0, at + 1))) by {
                    assert(given.subrange(0, at + 1) =~= given.subrange(0, at).push(given[at]));
                    assert(views(events@) =~= views(before).push(event@));
                }
            },
            Err(error) => {
                return Err(error);
            },
        }
    }
    assert(given.subrange(0, given.len() as int) =~= given);
    Ok(sort_by_start(events))
}

} // verus!
