use digital_sign::calendar::Timestamp;
use digital_sign::clock::Moment;
use digital_sign::config::Settings;
use digital_sign::event::Event;
use digital_sign::sign::{DigitalSign, Message, Task, LOADING_FRAME_COUNT};

fn settings() -> Settings {
    Settings::default()
}

fn event(id: &str, secs: i64, image: Option<&str>) -> Event {
    Event {
        id: id.to_string(),
        title: format!("Event {}", id),
        description: String::new(),
        start_time: String::new(),
        end_time: String::new(),
        date: String::new(),
        location: String::new(),
        image_url: image.map(|url| url.to_string()),
        category: String::new(),
        timestamp: Timestamp { secs, nanos: 0 },
        end_timestamp: Timestamp { secs: secs + 3600, nanos: 0 },
    }
}

fn three_events() -> Vec<Event> {
    vec![
        event("a", 100, Some("http://img/a")),
        event("b", 200, Some("http://img/b")),
        event("c", 300, None),
    ]
}

fn ids(sign: &DigitalSign) -> Vec<String> {
    sign.events().iter().map(|e| e.id.clone()).collect()
}

#[test]
fn a_new_machine_is_at_rest() {
    let sign = DigitalSign::new(&settings(), Moment::from_secs(7));
    assert!(sign.events().is_empty());
    assert_eq!(sign.current_event_index(), 0);
    assert_eq!(sign.loading_frame(), 0);
    assert!(!sign.is_fetching());
    assert_eq!(sign.last_update(), Moment::from_secs(7));
    assert_eq!(sign.last_refresh(), Moment::from_secs(7));
    assert!(sign.current_event().is_none());
}

#[test]
fn start_asks_for_the_events() {
    let (sign, tasks) = DigitalSign::start(&settings(), Moment::from_secs(0));
    assert!(sign.is_fetching());
    assert_eq!(tasks, vec![Task::FetchEvents]);
}

#[test]
fn tick_without_events_only_turns_the_spinner() {
    let mut sign = DigitalSign::new(&settings(), Moment::from_secs(0));
    let tasks = sign.tick(Moment::from_secs(60));
    assert!(tasks.is_empty());
    assert_eq!(sign.current_event_index(), 0);
    assert_eq!(sign.loading_frame(), 1);
    assert_eq!(sign.last_update(), Moment::from_secs(0));
    assert!(sign.current_event().is_none());
}

#[test]
fn spinner_is_cyclic() {
    let mut sign = DigitalSign::new(&settings(), Moment::from_secs(0));
    let mut seen = Vec::new();
    for step in 0..9u64 {
        sign.tick(Moment::from_millis(step * 100));
        seen.push(sign.loading_frame());
    }
    assert_eq!(LOADING_FRAME_COUNT, 4);
    assert_eq!(seen, vec![1, 2, 3, 0, 1, 2, 3, 0, 1]);
}

#[test]
fn tick_advances_the_slide_after_the_interval() {
    let mut sign = DigitalSign::new(&settings(), Moment::from_secs(0));
    sign.events_loaded(three_events(), Moment::from_secs(0));
    sign.image_loaded("http://img/a".to_string(), Some(vec![1, 2, 3]));
    sign.image_loaded("http://img/gone".to_string(), Some(vec![9]));
    assert_eq!(sign.current_event_index(), 0);

    let now = Moment::from_secs(11);
    let tasks = sign.tick(now);
    assert_eq!(sign.current_event_index(), 1);
    assert_eq!(sign.last_update(), now);
    assert_eq!(tasks, vec![Task::LoadImage("http://img/b".to_string())]);
    // An image that no event has is dropped; the image of an event of the
    // list stays, also when that event has left the screen.
    assert!(sign.image(&"http://img/gone".to_string()).is_none());
    assert_eq!(sign.image(&"http://img/a".to_string()), Some(&vec![1, 2, 3]));
}

#[test]
fn tick_keeps_the_slide_before_the_interval() {
    let mut sign = DigitalSign::new(&settings(), Moment::from_secs(0));
    sign.events_loaded(three_events(), Moment::from_secs(0));
    sign.image_loaded("http://img/gone".to_string(), Some(vec![9]));
    let tasks = sign.tick(Moment::from_nanos(9_999_999_999));
    assert!(tasks.is_empty());
    assert_eq!(sign.current_event_index(), 0);
    assert_eq!(sign.last_update(), Moment::from_secs(0));
    assert!(sign.image(&"http://img/gone".to_string()).is_some());
    let tasks = sign.tick(Moment::from_secs(10));
    assert_eq!(sign.current_event_index(), 1);
    assert_eq!(tasks.len(), 1);
}

#[test]
fn slides_wrap_around() {
    let mut sign = DigitalSign::new(&settings(), Moment::from_secs(0));
    sign.events_loaded(three_events(), Moment::from_secs(0));
    let mut places = Vec::new();
    for step in 1..=7u64 {
        sign.tick(Moment::from_secs(step * 10));
        assert!(sign.current_event_index() < sign.events().len());
        places.push(sign.current_event_index());
    }
    assert_eq!(places, vec![1, 2, 0, 1, 2, 0, 1]);
}

#[test]
fn a_loaded_image_is_not_asked_for_again() {
    let mut sign = DigitalSign::new(&settings(), Moment::from_secs(0));
    sign.events_loaded(three_events(), Moment::from_secs(0));
    sign.image_loaded("http://img/b".to_string(), Some(vec![4]));
    let tasks = sign.tick(Moment::from_secs(10));
    assert_eq!(sign.current_event_index(), 1);
    assert!(tasks.is_empty());
    // The third event has no image.
    let tasks = sign.tick(Moment::from_secs(20));
    assert_eq!(sign.current_event_index(), 2);
    assert!(tasks.is_empty());
}

#[test]
fn a_clock_that_steps_back_counts_as_no_time() {
    let mut sign = DigitalSign::new(&settings(), Moment::from_secs(100));
    sign.events_loaded(three_events(), Moment::from_secs(100));
    let tasks = sign.tick(Moment::from_secs(50));
    assert!(tasks.is_empty());
    assert_eq!(sign.current_event_index(), 0);
}

#[test]
fn refresh_is_asked_for_once() {
    let mut sign = DigitalSign::new(&settings(), Moment::from_secs(0));
    assert!(!sign.should_refresh(Moment::from_secs(299)));
    assert!(sign.tick(Moment::from_secs(299)).is_empty());
    assert!(sign.should_refresh(Moment::from_secs(300)));
    assert_eq!(sign.tick(Moment::from_secs(300)), vec![Task::FetchEvents]);
    assert!(sign.is_fetching());
    // However much time passes, no second request is made while one is
    // under way.
    for step in 0..50u64 {
        let tasks = sign.tick(Moment::from_secs(301 + step * 1000));
        assert!(!tasks.contains(&Task::FetchEvents));
        assert!(sign.is_fetching());
    }
}

#[test]
fn a_failed_refresh_is_retried_on_the_next_tick() {
    let mut sign = DigitalSign::new(&settings(), Moment::from_secs(0));
    sign.events_loaded(three_events(), Moment::from_secs(5));
    let before = ids(&sign);
    assert_eq!(sign.tick(Moment::from_secs(305)).first(), Some(&Task::FetchEvents));
    assert!(sign.is_fetching());

    let tasks = sign.update(Message::Error("connection refused".to_string()), Moment::from_secs(306));
    assert!(tasks.is_empty());
    assert!(!sign.is_fetching());
    assert_eq!(sign.last_refresh(), Moment::from_secs(5));
    assert_eq!(ids(&sign), before);

    let tasks = sign.tick(Moment::from_secs(306));
    assert_eq!(tasks.first(), Some(&Task::FetchEvents));
    assert!(sign.is_fetching());
}

#[test]
fn loaded_events_clear_the_images() {
    let mut sign = DigitalSign::new(&settings(), Moment::from_secs(0));
    sign.events_loaded(three_events(), Moment::from_secs(0));
    sign.image_loaded("http://img/a".to_string(), Some(vec![1]));
    sign.image_loaded("http://img/b".to_string(), Some(vec![2]));
    let tasks = sign.events_loaded(three_events(), Moment::from_secs(400));
    assert!(sign.image(&"http://img/a".to_string()).is_none());
    assert!(sign.image(&"http://img/b".to_string()).is_none());
    assert!(!sign.is_fetching());
    assert_eq!(sign.last_refresh(), Moment::from_secs(400));
    assert_eq!(
        tasks,
        vec![
            Task::LoadImage("http://img/a".to_string()),
            Task::LoadImage("http://img/b".to_string()),
        ]
    );
}

#[test]
fn loaded_events_are_sorted_by_start() {
    let mut sign = DigitalSign::new(&settings(), Moment::from_secs(0));
    let events = vec![
        event("late", 300, None),
        event("first-of-two", 200, None),
        event("early", 100, None),
        event("second-of-two", 200, None),
    ];
    sign.events_loaded(events, Moment::from_secs(0));
    assert_eq!(ids(&sign), vec!["early", "first-of-two", "second-of-two", "late"]);
}

#[test]
fn sorting_goes_by_nanoseconds_within_a_second() {
    let mut sign = DigitalSign::new(&settings(), Moment::from_secs(0));
    let mut late = event("late", 100, None);
    late.timestamp = Timestamp { secs: 100, nanos: 500 };
    let mut early = event("early", 100, None);
    early.timestamp = Timestamp { secs: 100, nanos: 499 };
    let before = event("before", -5, None);
    sign.events_loaded(vec![late, early, before], Moment::from_secs(0));
    assert_eq!(ids(&sign), vec!["before", "early", "late"]);
}

#[test]
fn the_place_on_screen_stays_where_the_new_list_has_it() {
    let mut sign = DigitalSign::new(&settings(), Moment::from_secs(0));
    sign.events_loaded(three_events(), Moment::from_secs(0));
    sign.tick(Moment::from_secs(10));
    sign.tick(Moment::from_secs(20));
    assert_eq!(sign.current_event_index(), 2);

    // The image of the event on screen is asked for first.
    let tasks = sign.events_loaded(
        vec![
            event("x", 1, Some("http://img/x")),
            event("y", 2, Some("http://img/y")),
            event("z", 3, Some("http://img/z")),
        ],
        Moment::from_secs(21),
    );
    assert_eq!(sign.current_event_index(), 2);
    assert_eq!(sign.current_event().map(|e| e.id.as_str()), Some("z"));
    assert_eq!(
        tasks,
        vec![
            Task::LoadImage("http://img/z".to_string()),
            Task::LoadImage("http://img/x".to_string()),
            Task::LoadImage("http://img/y".to_string()),
        ]
    );

    // A shorter list puts the first event on screen.
    sign.events_loaded(vec![event("x", 1, None), event("y", 2, None)], Moment::from_secs(22));
    assert_eq!(sign.current_event_index(), 0);

    // So does an empty one.
    sign.events_loaded(three_events(), Moment::from_secs(23));
    sign.tick(Moment::from_secs(40));
    assert_eq!(sign.current_event_index(), 1);
    let tasks = sign.events_loaded(Vec::new(), Moment::from_secs(41));
    assert!(tasks.is_empty());
    assert_eq!(sign.current_event_index(), 0);
    assert!(sign.current_event().is_none());
}

#[test]
fn events_that_share_an_image_ask_for_it_each() {
    let mut sign = DigitalSign::new(&settings(), Moment::from_secs(0));
    let tasks = sign.events_loaded(
        vec![event("a", 1, Some("http://img/same")), event("b", 2, Some("http://img/same"))],
        Moment::from_secs(0),
    );
    assert_eq!(
        tasks,
        vec![
            Task::LoadImage("http://img/same".to_string()),
            Task::LoadImage("http://img/same".to_string()),
        ]
    );
}

#[test]
fn an_image_handed_in_twice_is_held_once() {
    let mut once = DigitalSign::new(&settings(), Moment::from_secs(0));
    once.image_loaded("http://img/a".to_string(), Some(vec![1, 2]));
    let mut twice = DigitalSign::new(&settings(), Moment::from_secs(0));
    twice.image_loaded("http://img/a".to_string(), Some(vec![1, 2]));
    twice.image_loaded("http://img/a".to_string(), Some(vec![1, 2]));
    assert_eq!(once.image(&"http://img/a".to_string()), twice.image(&"http://img/a".to_string()));
    assert_eq!(twice.image(&"http://img/a".to_string()), Some(&vec![1, 2]));
    // Later bytes take the place of earlier ones.
    twice.image_loaded("http://img/a".to_string(), Some(vec![7]));
    assert_eq!(twice.image(&"http://img/a".to_string()), Some(&vec![7]));
}

#[test]
fn an_image_that_is_not_to_be_had_leaves_no_entry() {
    let mut sign = DigitalSign::new(&settings(), Moment::from_secs(0));
    let tasks = sign.update(
        Message::ImageLoaded("http://img/a".to_string(), None),
        Moment::from_secs(1),
    );
    assert!(tasks.is_empty());
    assert!(sign.image(&"http://img/a".to_string()).is_none());
}

#[test]
fn update_dispatches_on_the_message() {
    let mut sign = DigitalSign::new(&settings(), Moment::from_secs(0));
    let tasks = sign.update(Message::EventsLoaded(three_events()), Moment::from_secs(1));
    assert_eq!(tasks.len(), 2);
    assert_eq!(sign.events().len(), 3);
    assert_eq!(sign.last_refresh(), Moment::from_secs(1));
    let tasks = sign.update(
        Message::ImageLoaded("http://img/b".to_string(), Some(vec![5])),
        Moment::from_secs(2),
    );
    assert!(tasks.is_empty());
    assert_eq!(sign.image(&"http://img/b".to_string()), Some(&vec![5]));
    let tasks = sign.update(Message::Tick, Moment::from_secs(12));
    assert!(tasks.is_empty());
    assert_eq!(sign.current_event_index(), 1);
    assert_eq!(sign.loading_frame(), 1);
}

#[test]
fn handle_result_wraps_the_outcome() {
    assert_eq!(
        Message::handle_result(Ok(three_events())),
        Message::EventsLoaded(three_events())
    );
    assert_eq!(
        Message::handle_result(Err("timed out".to_string())),
        Message::Error("timed out".to_string())
    );
}

#[test]
fn refresh_and_slide_can_fall_on_one_tick() {
    let mut sign = DigitalSign::new(&settings(), Moment::from_secs(0));
    sign.events_loaded(three_events(), Moment::from_secs(0));
    let tasks = sign.tick(Moment::from_secs(300));
    assert_eq!(
        tasks,
        vec![Task::FetchEvents, Task::LoadImage("http://img/b".to_string())]
    );
}
