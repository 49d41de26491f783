//! What a slide shows of an event, as far as it depends on the state of the
//! display.

use vstd::prelude::*;
use vstd::utf8::encode_utf8;
use crate::event::{Event, EventView};
use crate::sign::{DigitalSign, SignView};

verus! {

/// The size of a title of at most [`LONG_TITLE`] bytes.
pub const LARGE_TITLE: u16 = 88;

/// The size of a longer title.
pub const SMALL_TITLE: u16 = 72;

/// The number of bytes up to which a title is set large.
pub const LONG_TITLE: usize = 50;

/// The size in which `title` is set.
pub fn title_size(title: &str) -> (size: u16)
    ensures
        size == if encode_utf8(title@).len() > LONG_TITLE {
            SMALL_TITLE
        } else {
            LARGE_TITLE
        },
{
    if title.as_bytes().len() > LONG_TITLE {
        SMALL_TITLE
    } else {
        LARGE_TITLE
    }
}

/// The place of an event's image on its slide.
#[derive(Debug)]
pub enum ImagePanel<'a> {
    /// The image, which has been loaded.
    Picture(&'a Vec<u8>),
    /// The given frame of the loading animation: the event has an image,
    /// which has not been loaded.
    Loading(usize),
    /// A notice that the event has no image.
    NoImage,
}

/// What an [`ImagePanel`] shows, as a mathematical value.
pub enum PanelView {
    Picture(Seq<u8>),
    Loading(nat),
    NoImage,
}

impl<'a> View for ImagePanel<'a> {
    type V = PanelView;

    open spec fn view(&self) -> PanelView {
        match self {
            ImagePanel::Picture(bytes) => PanelView::Picture(bytes@),
            ImagePanel::Loading(frame) => PanelView::Loading(*frame as nat),
            ImagePanel::NoImage => PanelView::NoImage,
        }
    }
}

/// What stands in the place of the image of `event` while the display is in
/// `state`.
pub open spec fn panel(state: SignView, event: EventView) -> PanelView {
    match event.image_url {
        Some(url) => if state.images.contains_key(url) {
            PanelView::Picture(state.images[url])
        } else {
            PanelView::Loading(state.loading_frame)
        },
        None => PanelView::NoImage,
    }
}

/// What stands in the place of the image of `event`.
pub fn image_panel<'a>(sign: &'a DigitalSign, event: &Event) -> (shown: ImagePanel<'a>)
    requires
        sign.well_formed(),
    ensures
        shown@ == panel(sign@, event@),
{
    match &event.image_url {
        Some(url) => match sign.image(url) {
            Some(bytes) => ImagePanel::Picture(bytes),
            None => ImagePanel::Loading(sign.loading_frame()),
        },
        None => ImagePanel::NoImage,
    }
}

/// The times of day between which `event` takes place, as they are shown.
pub fn time_range(event: &Event) -> (text: String)
    ensures
        text@ == event@.start_time + " - "@ + event@.end_time,
{
    let mut text = event.start_time.clone();
    text.append(" - ");
    text.append(event.end_time.as_str());
    text
}

/// Whether the slide of `event` names a location: the event has one.
pub fn shows_location(event: &Event) -> (shown: bool)
    ensures
        shown == (event@.location.len() > 0),
{
    !event.location.as_str().is_empty()
}

} // verus!
