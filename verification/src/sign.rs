//! The display's state machine. It is driven by a tick of fixed rate and by
//! the completions of the requests it hands out; it performs none of them
//! itself, and every handler runs to its end before the next one starts.

use vstd::prelude::*;
use crate::cache::{bytes_of, kept, ImageCache};
use crate::clock::{elapsed, Moment, Span};
use crate::config::Settings;
use crate::event::{shows_image, views, Event, EventView};
use crate::order::{in_order, is_stable_sort_of, sort_by_start};

verus! {

/// The number of frames of the animation that stands in for an image that has
/// not been loaded.
pub const LOADING_FRAME_COUNT: usize = 4;

/// The time from one tick to the next, in milliseconds. It is much shorter
/// than a slide is shown, so that a slide changes close to its time.
pub const TICK_MILLIS: u64 = 100;

/// A request that the caller carries out in the background. Its outcome comes
/// back to the machine as a [`Message`].
#[derive(Clone, Debug, PartialEq, Eq)]
pub enum Task {
    /// Load the list of upcoming events.
    FetchEvents,
    /// Load the image at this address.
    LoadImage(String),
}

/// What a [`Task`] asks for, as a mathematical value.
pub enum TaskView {
    FetchEvents,
    LoadImage(Seq<char>),
}

impl View for Task {
    type V = TaskView;

    open spec fn view(&self) -> TaskView {
        match self {
            Task::FetchEvents => TaskView::FetchEvents,
            Task::LoadImage(url) => TaskView::LoadImage(url@),
        }
    }
}

/// The views of a list of tasks, in the list's order.
pub open spec fn task_views(tasks: Seq<Task>) -> Seq<TaskView> {
    tasks.map_values(|t: Task| t@)
}

/// What the machine reacts to.
#[derive(Clone, Debug, PartialEq, Eq)]
pub enum Message {
    /// The clock has ticked.
    Tick,
    /// The list of upcoming events has been loaded.
    EventsLoaded(Vec<Event>),
    /// Loading the list of upcoming events has failed, for the reason given.
    Error(String),
    /// The request for the image at the address has ended: with the image's
    /// bytes, or without any where the image is not to be had.
    ImageLoaded(String, Option<Vec<u8>>),
}

impl Message {
    /// The message that reports how loading the list of events has ended.
    pub fn handle_result(result: Result<Vec<Event>, String>) -> (message: Message)
        ensures
            match result {
                Ok(events) => message == Message::EventsLoaded(events),
                Err(reason) => message == Message::Error(reason),
            },
    {
        match result {
            Ok(events) => Message::EventsLoaded(events),
            Err(reason) => Message::Error(reason),
        }
    }
}

/// The state of the machine, as mathematical values. Clock readings and
/// intervals are in nanoseconds.
pub struct SignView {
    /// The events that are known, in the order in which they are shown.
    pub events: Seq<EventView>,
    /// The place in `events` of the event on screen.
    pub current: nat,
    /// When the slide last changed.
    pub last_update: nat,
    /// When the list of events was last loaded.
    pub last_refresh: nat,
    /// The images that have been loaded, by address.
    pub images: Map<Seq<char>, Seq<u8>>,
    /// The frame of the loading animation.
    pub loading_frame: nat,
    /// Whether a request for the list of events is under way.
    pub is_fetching: bool,
    /// For how long one slide is shown.
    pub slide_interval: nat,
    /// After how long the list of events is loaded again.
    pub refresh_interval: nat,
}

impl SignView {
    /// The place of the event on screen is a place in the list, or 0 where
    /// the list is empty; the frame is one of the animation's; the events
    /// stand in the order in which they are shown.
    pub open spec fn well_formed(self) -> bool {
        &&& self.events.len() == 0 ==> self.current == 0
        &&& self.events.len() > 0 ==> self.current < self.events.len()
        &&& self.loading_frame < LOADING_FRAME_COUNT
        &&& in_order(self.events)
    }

    /// Whether the list of events is due to be loaded again at `now`.
    pub open spec fn refresh_due(self, now: nat) -> bool {
        elapsed(self.last_refresh, now) >= self.refresh_interval
    }

    /// Whether a tick at `now` asks for the list of events: it is due, and no
    /// request for it is under way.
    pub open spec fn starts_refresh(self, now: nat) -> bool {
        self.refresh_due(now) && !self.is_fetching
    }

    /// Whether a tick at `now` shows the next slide.
    pub open spec fn slide_due(self, now: nat) -> bool {
        self.events.len() > 0 && elapsed(self.last_update, now) >= self.slide_interval
    }

    /// The place of the slide after the one on screen; the first follows the
    /// last.
    pub open spec fn next_index(self) -> nat {
        ((self.current + 1) as int % (self.events.len() as int)) as nat
    }

    /// The event on screen, if there is one.
    pub open spec fn current_event(self) -> Option<EventView> {
        if self.current < self.events.len() {
            Some(self.events[self.current as int])
        } else {
            None
        }
    }

    /// The state after a tick at `now`. The animation moves on by one frame.
    /// Where the list of events is due, a request for it is under way
    /// afterwards. Where the slide is due, the next one is on screen, and the
    /// images that no event has are dropped.
    pub open spec fn after_tick(self, now: nat) -> SignView {
        let turned = SignView {
            loading_frame: ((self.loading_frame + 1) as int % (LOADING_FRAME_COUNT as int)) as nat,
            is_fetching: self.is_fetching || self.refresh_due(now),
            ..self
        };
        if self.slide_due(now) {
            SignView {
                current: self.next_index(),
                last_update: now,
                images: kept(self.images, self.events),
                ..turned
            }
        } else {
            turned
        }
    }

    /// The requests that a tick at `now` hands out: one for the list of
    /// events where that starts, then one for the image of the slide that
    /// comes on screen, where a slide comes on screen and has an image that
    /// has not been loaded.
    pub open spec fn tick_tasks(self, now: nat) -> Seq<TaskView> {
        let refresh = if self.starts_refresh(now) {
            seq![TaskView::FetchEvents]
        } else {
            Seq::empty()
        };
        refresh + self.slide_tasks(now)
    }

    /// The request for the image of the slide that a tick at `now` brings on
    /// screen, if it brings one and its image has not been loaded.
    pub open spec fn slide_tasks(self, now: nat) -> Seq<TaskView> {
        if self.slide_due(now) {
            match self.events[self.next_index() as int].image_url {
                Some(url) => if kept(self.images, self.events).contains_key(url) {
                    Seq::empty()
                } else {
                    seq![TaskView::LoadImage(url)]
                },
                None => Seq::empty(),
            }
        } else {
            Seq::empty()
        }
    }

    /// The state after the list of events has been loaded at `now`, with
    /// `sorted` the loaded events in the order in which they are shown. No
    /// image is held any more. The place on screen stays where it is a place
    /// in the new list, and is the first otherwise.
    pub open spec fn after_events(self, sorted: Seq<EventView>, now: nat) -> SignView {
        SignView {
            events: sorted,
            current: if self.current < sorted.len() {
                self.current
            } else {
                0
            },
            images: Map::empty(),
            last_refresh: now,
            is_fetching: false,
            ..self
        }
    }

    /// The state after loading the list of events has failed: no request is
    /// under way any more, and nothing else has changed.
    pub open spec fn after_error(self) -> SignView {
        SignView { is_fetching: false, ..self }
    }

    /// The state after the request for the image at `url` has ended: with
    /// bytes, they are the image at `url`; without, nothing has changed.
    pub open spec fn after_image(self, url: Seq<char>, bytes: Option<Seq<u8>>) -> SignView {
        match bytes {
            Some(b) => SignView { images: self.images.insert(url, b), ..self },
            None => self,
        }
    }
}

/// While a request for the list of events is under way, no tick asks for the
/// list again, however much time has passed; the request stays under way.
pub proof fn lemma_no_second_refresh(state: SignView, now: nat)
    requires
        state.is_fetching,
    ensures
        !state.tick_tasks(now).contains(TaskView::FetchEvents),
        state.after_tick(now).is_fetching,
{
    assert(state.tick_tasks(now) =~= state.slide_tasks(now));
}

/// A tick asks for the list of events exactly where the list is due and no
/// request for it is under way, and then it asks first of all.
pub proof fn lemma_refresh_starts_when_due(state: SignView, now: nat)
    ensures
        state.tick_tasks(now).contains(TaskView::FetchEvents) <==> state.starts_refresh(now),
        state.starts_refresh(now) ==> state.tick_tasks(now)[0] == TaskView::FetchEvents,
{
    if state.starts_refresh(now) {
        assert(state.tick_tasks(now)[0] == TaskView::FetchEvents);
    } else {
        assert(state.tick_tasks(now) =~= state.slide_tasks(now));
    }
}

/// After the list of events has been loaded, no image is held.
pub proof fn lemma_refresh_empties_cache(state: SignView, sorted: Seq<EventView>, now: nat)
    ensures
        state.after_events(sorted, now).images == Map::<Seq<char>, Seq<u8>>::empty(),
        forall|url: Seq<char>| !state.after_events(sorted, now).images.contains_key(url),
{
}

/// A tick keeps the place on screen within the list of events, and keeps the
/// state well formed.
pub proof fn lemma_tick_keeps_place(state: SignView, now: nat)
    requires
        state.well_formed(),
    ensures
        state.after_tick(now).well_formed(),
        state.after_tick(now).events == state.events,
        state.events.len() > 0 ==> state.current < state.events.len() && state.after_tick(
            now,
        ).current < state.events.len(),
        state.events.len() == 0 ==> state.after_tick(now).current == 0,
{
    if state.events.len() > 0 {
        let n = state.events.len() as int;
        assert(0 <= (state.current + 1) as int % n < n);
    }
}

/// Every other step keeps the state well formed too.
pub proof fn lemma_steps_keep_well_formed(
    state: SignView,
    sorted: Seq<EventView>,
    url: Seq<char>,
    bytes: Option<Seq<u8>>,
    now: nat,
)
    requires
        state.well_formed(),
        in_order(sorted),
    ensures
        state.after_events(sorted, now).well_formed(),
        state.after_error().well_formed(),
        state.after_image(url, bytes).well_formed(),
{
}

/// The same image handed in twice leaves the state as handing it in once
/// does.
pub proof fn lemma_image_twice(state: SignView, url: Seq<char>, bytes: Seq<u8>)
    ensures
        state.after_image(url, Some(bytes)).after_image(url, Some(bytes)) == state.after_image(
            url,
            Some(bytes),
        ),
{
    assert(state.images.insert(url, bytes).insert(url, bytes) =~= state.images.insert(url, bytes));
}

/// Once a slide has come on screen, every image that is held is the image of
/// some event of the list.
pub proof fn lemma_slide_drops_orphans(state: SignView, now: nat, url: Seq<char>)
    requires
        state.slide_due(now),
        state.after_tick(now).images.contains_key(url),
    ensures
        shows_image(state.events, url),
        state.images.contains_key(url),
        state.after_tick(now).images[url] == state.images[url],
{
}

/// A failure leaves the events, the place on screen and the time of the last
/// load as they were, so that the next tick at which the list is still due
/// asks for it again.
pub proof fn lemma_failure_is_retried(state: SignView, now: nat)
    requires
        state.refresh_due(now),
    ensures
        state.after_error().events == state.events,
        state.after_error().current == state.current,
        state.after_error().last_refresh == state.last_refresh,
        !state.after_error().is_fetching,
        state.after_error().tick_tasks(now)[0] == TaskView::FetchEvents,
{
}

/// The events in the order in which their images are asked for: the one at
/// `current` first, the others behind it as they stand.
pub open spec fn load_order(events: Seq<EventView>, current: int) -> Seq<EventView> {
    if 0 <= current < events.len() {
        seq![events[current]] + events.remove(current)
    } else {
        events
    }
}

/// One request for each event of `events` that has an image, in the order
/// of `events`.
pub open spec fn image_requests(events: Seq<EventView>) -> Seq<TaskView> {
    events.filter(|e: EventView| e.image_url is Some).map_values(
        |e: EventView| TaskView::LoadImage(e.image_url->0),
    )
}

/// The state machine of one display.
#[derive(Debug)]
pub struct DigitalSign {
    events: Vec<Event>,
    current_event_index: usize,
    last_update: Moment,
    last_refresh: Moment,
    loaded_images: ImageCache,
    loading_frame: usize,
    is_fetching: bool,
    slide_interval: Span,
    refresh_interval: Span,
}

impl View for DigitalSign {
    type V = SignView;

    closed spec fn view(&self) -> SignView {
        SignView {
            events: views(self.events@),
            current: self.current_event_index as nat,
            last_update: self.last_update@,
            last_refresh: self.last_refresh@,
            images: self.loaded_images@,
            loading_frame: self.loading_frame as nat,
            is_fetching: self.is_fetching,
            slide_interval: self.slide_interval@,
            refresh_interval: self.refresh_interval@,
        }
    }
}

impl DigitalSign {
    /// What holds of the machine between any two of its steps: no address is
    /// held twice among the loaded images, and the state is well formed.
    pub closed spec fn well_formed(&self) -> bool {
        &&& self.loaded_images.well_formed()
        &&& self@.well_formed()
    }

    /// A machine at rest at `now`: it knows no event, holds no image, and no
    /// request is under way.
    pub fn new(settings: &Settings, now: Moment) -> (sign: DigitalSign)
        ensures
            sign.well_formed(),
            sign@.well_formed(),
            sign@ == (SignView {
                events: Seq::empty(),
                current: 0,
                last_update: now@,
                last_refresh: now@,
                images: Map::empty(),
                loading_frame: 0,
                is_fetching: false,
                slide_interval: settings.slide_nanos(),
                refresh_interval: settings.refresh_nanos(),
            }),
    {
        let sign = DigitalSign {
            events: Vec::new(),
            current_event_index: 0,
            last_update: now,
            last_refresh: now,
            loaded_images: ImageCache::new(),
            loading_frame: 0,
            is_fetching: false,
            slide_interval: settings.slide_interval(),
            refresh_interval: settings.refresh_interval(),
        };
        assert(views(sign.events@) =~= Seq::<EventView>::empty());
        sign
    }

    /// A machine that starts work at `now`, and the request it starts with:
    /// the one for the list of events, which is under way from then on.
    pub fn start(settings: &Settings, now: Moment) -> (started: (DigitalSign, Vec<Task>))
        ensures
            started.0.well_formed(),
            started.0@.well_formed(),
            started.0@ == (SignView {
                events: Seq::empty(),
                current: 0,
                last_update: now@,
                last_refresh: now@,
                images: Map::empty(),
                loading_frame: 0,
                is_fetching: true,
                slide_interval: settings.slide_nanos(),
                refresh_interval: settings.refresh_nanos(),
            }),
            task_views(started.1@) == seq![TaskView::FetchEvents],
    {
        let mut sign = DigitalSign::new(settings, now);
        sign.is_fetching = true;
        let mut tasks: Vec<Task> = Vec::new();
        tasks.push(Task::FetchEvents);
        assert(task_views(tasks@) =~= seq![TaskView::FetchEvents]);
        (sign, tasks)
    }

    /// Whether the list of events is due to be loaded again at `now`.
    pub fn should_refresh(&self, now: Moment) -> (due: bool)
        ensures
            due == self@.refresh_due(now@),
    {
        now.since(self.last_refresh).at_least(self.refresh_interval)
    }

    /// Handles one tick of the clock, at `now`.
    pub fn tick(&mut self, now: Moment) -> (tasks: Vec<Task>)
        requires
            old(self).well_formed(),
        ensures
            final(self).well_formed(),
            final(self)@.well_formed(),
            final(self)@ == old(self)@.after_tick(now@),
            task_views(tasks@) == old(self)@.tick_tasks(now@),
            old(self)@.is_fetching ==> !task_views(tasks@).contains(TaskView::FetchEvents),
    {
        proof {
            lemma_tick_keeps_place(old(self)@, now@);
            if old(self)@.is_fetching {
                lemma_no_second_refresh(old(self)@, now@);
            }
        }
        let mut tasks: Vec<Task> = Vec::new();
        self.loading_frame = (self.loading_frame + 1) % LOADING_FRAME_COUNT;
        if self.should_refresh(now) && !self.is_fetching {
            self.is_fetching = true;
            tasks.push(Task::FetchEvents);
        }
        let ghost refresh = task_views(tasks@);
        assert(refresh =~= if old(self)@.starts_refresh(now@) {
            seq![TaskView::FetchEvents]
        } else {
            Seq::empty()
        });
        if self.events.len() > 0 && now.since(self.last_update).at_least(self.slide_interval) {
            let next_index = (self.current_event_index + 1) % self.events.len();
            self.loaded_images.retain_shown(&self.events);
            self.current_event_index = next_index;
            self.last_update = now;
            match &self.events[next_index].image_url {
                Some(url) => {
                    if !self.loaded_images.contains(url) {
                        tasks.push(Task::LoadImage(url.clone()));
                    }
                },
                None => {},
            }
        }
        assert(task_views(tasks@) =~= refresh + old(self)@.slide_tasks(now@));
        tasks
    }

    /// Takes in the list of events that has been loaded at `now`.
    pub fn events_loaded(&mut self, events: Vec<Event>, now: Moment) -> (tasks: Vec<Task>)
        requires
            old(self).well_formed(),
        ensures
            final(self).well_formed(),
            final(self)@.well_formed(),
            is_stable_sort_of(final(self)@.events, views(events@)),
            final(self)@ == old(self)@.after_events(final(self)@.events, now@),
            final(self)@.images == Map::<Seq<char>, Seq<u8>>::empty(),
            task_views(tasks@) == image_requests(
                load_order(final(self)@.events, final(self)@.current as int),
            ),
    {
        self.loaded_images.clear();
        self.events = sort_by_start(events);
        if self.current_event_index >= self.events.len() {
            self.current_event_index = 0;
        }
        self.last_refresh = now;
        self.is_fetching = false;
        self.image_tasks()
    }

    /// One request for each event that has an image, the event on screen
    /// first.
    fn image_tasks(&self) -> (tasks: Vec<Task>)
        requires
            self.events@.len() > 0 ==> self.current_event_index < self.events@.len(),
        ensures
            task_views(tasks@) == image_requests(
                load_order(views(self.events@), self.current_event_index as int),
            ),
    {
        let ghost all = views(self.events@);
        let ghost current = self.current_event_index as int;
        let ghost has_image = |e: EventView| e.image_url is Some;
        let ghost ask = |e: EventView| TaskView::LoadImage(e.image_url->0);
        let mut tasks: Vec<Task> = Vec::new();
        let ghost mut done: Seq<EventView> = Seq::empty();
        if self.events.len() == 0 {
            proof {
                reveal(Seq::filter);
                assert(all.filter(has_image) =~= Seq::<EventView>::empty());
                assert(task_views(tasks@) =~= image_requests(load_order(all, current)));
            }
            return tasks;
        }
        match &self.events[self.current_event_index].image_url {
            Some(url) => {
                tasks.push(Task::LoadImage(url.clone()));
            },
            None => {},
        }
        proof {
            done = seq![all[current]];
            reveal_with_fuel(Seq::filter, 2);
            assert(done.drop_last() =~= Seq::<EventView>::empty());
            assert(task_views(tasks@) =~= done.filter(has_image).map_values(ask));
        }
        let mut i: usize = 0;
        while i < self.events.len()
            invariant
                i <= self.events@.len(),
                all == views(self.events@),
                current == self.current_event_index as int,
                0 <= current < all.len(),
                has_image == |e: EventView| e.image_url is Some,
                ask == |e: EventView| TaskView::LoadImage(e.image_url->0),
                done == seq![all[current]] + if i <= current {
                    all.subrange(0, i as int)
                } else {
                    all.remove(current).subrange(0, i - 1)
                },
                task_views(tasks@) == done.filter(has_image).map_values(ask),
            decreases self.events@.len() - i,
        {
            let ghost before = done;
            if i != self.current_event_index {
                proof {
                    done = before.push(all[i as int]);
                    before.lemma_filter_push(all[i as int], has_image);
                }
                let ghost asked = tasks@;
                assert(all[i as int] == self.events[i as int]@);
                match &self.events[i].image_url {
                    Some(url) => {
                        tasks.push(Task::LoadImage(url.clone()));
                        proof {
                            assert(all[i as int].image_url == Some(url@));
                            assert(tasks@ == asked.push(tasks@.last()));
                            assert(task_views(tasks@) =~= task_views(asked).push(
                                ask(all[i as int]),
                            ));
                            assert(done.filter(has_image) == before.filter(has_image).push(
                                all[i as int],
                            ));
                            assert(task_views(tasks@) =~= done.filter(has_image).map_values(ask));
                        }
                    },
                    None => {
                        assert(all[i as int].image_url is None);
                    },
                }
            }
            i += 1;
            proof {
                let one = seq![all[current]];
                if i <= current {
                    assert(all.subrange(0, i as int) =~= all.subrange(0, i - 1).push(all[i - 1]));
                    assert(done =~= one + all.subrange(0, i as int));
                } else if i - 1 == current {
                    assert(all.remove(current).subrange(0, i - 1) =~= all.subrange(0, i - 1));
                    assert(done =~= one + all.remove(current).subrange(0, i - 1));
                } else {
                    assert(all.remove(current).subrange(0, i - 1) =~= all.remove(current).subrange(
                        0,
                        i - 2,
                    ).push(all[i - 1]));
                    assert(done =~= one + all.remove(current).subrange(0, i - 1));
                }
            }
        }
        proof {
            assert(all.remove(current).subrange(0, all.len() - 1) =~= all.remove(current));
            assert(done =~= load_order(all, current));
        }
        tasks
    }

    /// Takes note that loading the list of events has failed.
    pub fn fetch_failed(&mut self)
        requires
            old(self).well_formed(),
        ensures
            final(self).well_formed(),
            final(self)@.well_formed(),
            final(self)@ == old(self)@.after_error(),
    {
        self.is_fetching = false;
    }

    /// Takes in how the request for the image at `url` has ended.
    pub fn image_loaded(&mut self, url: String, bytes: Option<Vec<u8>>)
        requires
            old(self).well_formed(),
        ensures
            final(self).well_formed(),
            final(self)@.well_formed(),
            final(self)@ == old(self)@.after_image(url@, bytes_of(bytes)),
    {
        match bytes {
            Some(b) => {
                self.loaded_images.insert(url, b);
            },
            None => {},
        }
    }

    /// Handles `message`, which arrives at `now`, and returns the requests to
    /// carry out.
    pub fn update(&mut self, message: Message, now: Moment) -> (tasks: Vec<Task>)
        requires
            old(self).well_formed(),
        ensures
            final(self).well_formed(),
            final(self)@.well_formed(),
            match message {
                Message::Tick => {
                    &&& final(self)@ == old(self)@.after_tick(now@)
                    &&& task_views(tasks@) == old(self)@.tick_tasks(now@)
                    &&& old(self)@.is_fetching ==> !task_views(tasks@).contains(
                        TaskView::FetchEvents,
                    )
                },
                Message::EventsLoaded(events) => {
                    &&& is_stable_sort_of(final(self)@.events, views(events@))
                    &&& final(self)@ == old(self)@.after_events(final(self)@.events, now@)
                    &&& final(self)@.images == Map::<Seq<char>, Seq<u8>>::empty()
                    &&& task_views(tasks@) == image_requests(
                        load_order(final(self)@.events, final(self)@.current as int),
                    )
                },
                Message::Error(_) => {
                    &&& final(self)@ == old(self)@.after_error()
                    &&& tasks@.len() == 0
                },
                Message::ImageLoaded(url, bytes) => {
                    &&& final(self)@ == old(self)@.after_image(url@, bytes_of(bytes))
                    &&& tasks@.len() == 0
                },
            },
    {
        match message {
            Message::Tick => self.tick(now),
            Message::EventsLoaded(events) => self.events_loaded(events, now),
            Message::Error(_) => {
                self.fetch_failed();
                Vec::new()
            },
            Message::ImageLoaded(url, bytes) => {
                self.image_loaded(url, bytes);
                Vec::new()
            },
        }
    }

    /// The event on screen, if there is one.
    pub fn current_event(&self) -> (event: Option<&Event>)
        requires
            self.well_formed(),
        ensures
            match event {
                Some(e) => self@.current_event() == Some(e@),
                None => self@.current_event() is None && self@.events.len() == 0,
            },
    {
        if self.current_event_index < self.events.len() {
            assert(views(self.events@)[self.current_event_index as int]
                == self.events[self.current_event_index as int]@);
            Some(&self.events[self.current_event_index])
        } else {
            None
        }
    }

    /// The events that are known, in the order in which they are shown.
    pub fn events(&self) -> (events: &Vec<Event>)
        ensures
            views(events@) == self@.events,
    {
        &self.events
    }

    /// The place in the list of the event on screen.
    pub fn current_event_index(&self) -> (index: usize)
        ensures
            index == self@.current,
    {
        self.current_event_index
    }

    /// The frame of the loading animation.
    pub fn loading_frame(&self) -> (frame: usize)
        ensures
            frame == self@.loading_frame,
    {
        self.loading_frame
    }

    /// Whether a request for the list of events is under way.
    pub fn is_fetching(&self) -> (fetching: bool)
        ensures
            fetching == self@.is_fetching,
    {
        self.is_fetching
    }

    /// When the slide last changed.
    pub fn last_update(&self) -> (moment: Moment)
        ensures
            moment@ == self@.last_update,
    {
        self.last_update
    }

    /// When the list of events was last loaded.
    pub fn last_refresh(&self) -> (moment: Moment)
        ensures
            moment@ == self@.last_refresh,
    {
        self.last_refresh
    }

    /// The bytes of the image at `url`, if it has been loaded.
    pub fn image(&self, url: &String) -> (bytes: Option<&Vec<u8>>)
        requires
            self.well_formed(),
        ensures
            match bytes {
                Some(b) => self@.images.contains_key(url@) && b@ == self@.images[url@],
                None => !self@.images.contains_key(url@),
            },
    {
        self.loaded_images.get(url)
    }
}

} // verus!
