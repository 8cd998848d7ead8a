use grass_latte::{
    paths_equal, poll_button, receiver_step, send_button_with_callback, Click, Event, EventTypes,
    Incoming, PathMap, ReceiverAction, SendTypes, Widget,
};

fn strings(path: &[&str]) -> Vec<String> {
    path.iter().map(|s| s.to_string()).collect()
}

fn click(path: &[&str]) -> Incoming {
    Incoming::Event(Event::new(strings(path), EventTypes::Click(Click)))
}

fn assert_button(packet: &SendTypes, path: &[&str], text: &str, card: bool) {
    match packet {
        SendTypes::Widget(p) => {
            assert_eq!(p.path(), &strings(path));
            match p.widget() {
                Widget::Button(b) => {
                    assert_eq!(b.text(), text);
                    assert_eq!(b.card(), card);
                }
                other => panic!("unexpected widget {:?}", other),
            }
        }
        other => panic!("unexpected packet {:?}", other),
    }
}

#[test]
fn poll_without_click_sends_only_button() {
    let mut events: PathMap<EventTypes> = PathMap::new();
    let (packets, clicked) = poll_button(&mut events, &["b"], "Press", true);
    assert!(!clicked);
    assert_eq!(packets.len(), 1);
    assert_button(&packets[0], &["b"], "Press", true);
}

#[test]
fn click_is_reported_once() {
    let callbacks: PathMap<u32> = PathMap::new();
    let mut events: PathMap<EventTypes> = PathMap::new();
    match receiver_step(&callbacks, &mut events, click(&["panel", "go"])) {
        ReceiverAction::Continue { handled, run_callback } => {
            assert!(handled.is_none());
            assert!(run_callback.is_none());
        }
        ReceiverAction::Stop => panic!("stopped"),
    }
    let (packets, clicked) = poll_button(&mut events, &["panel", "go"], "Go", false);
    assert!(clicked);
    assert_eq!(packets.len(), 2);
    assert_button(&packets[0], &["panel", "go"], "Go", false);
    match &packets[1] {
        SendTypes::Handled(h) => assert_eq!(h.path(), &strings(&["panel", "go"])),
        other => panic!("unexpected packet {:?}", other),
    }
    let (packets, clicked) = poll_button(&mut events, &["panel", "go"], "Go", false);
    assert!(!clicked);
    assert_eq!(packets.len(), 1);
}

#[test]
fn two_clicks_before_a_poll_count_once() {
    let callbacks: PathMap<u32> = PathMap::new();
    let mut events: PathMap<EventTypes> = PathMap::new();
    receiver_step(&callbacks, &mut events, click(&["b"]));
    receiver_step(&callbacks, &mut events, click(&["b"]));
    assert!(poll_button(&mut events, &["b"], "B", true).1);
    assert!(!poll_button(&mut events, &["b"], "B", true).1);
}

#[test]
fn poll_leaves_other_buttons_clicked() {
    let callbacks: PathMap<u32> = PathMap::new();
    let mut events: PathMap<EventTypes> = PathMap::new();
    receiver_step(&callbacks, &mut events, click(&["a"]));
    receiver_step(&callbacks, &mut events, click(&["b"]));
    assert!(poll_button(&mut events, &["a"], "A", true).1);
    assert!(events.contains_key(&strings(&["b"])));
    assert!(poll_button(&mut events, &["b"], "B", true).1);
    assert!(!poll_button(&mut events, &["a"], "A", true).1);
}

#[test]
fn paths_differing_by_nesting_are_different_buttons() {
    let callbacks: PathMap<u32> = PathMap::new();
    let mut events: PathMap<EventTypes> = PathMap::new();
    receiver_step(&callbacks, &mut events, click(&["ab"]));
    assert!(!poll_button(&mut events, &["a", "b"], "x", true).1);
    assert!(poll_button(&mut events, &["ab"], "x", true).1);
}

#[test]
fn callback_runs_on_every_click() {
    let mut callbacks: PathMap<u32> = PathMap::new();
    let packet = send_button_with_callback(&mut callbacks, &["menu", "ok"], "OK", true, 7u32);
    assert_button(&packet, &["menu", "ok"], "OK", true);
    assert_eq!(callbacks.get(&strings(&["menu", "ok"])), Some(&7));
    let mut events: PathMap<EventTypes> = PathMap::new();
    for _ in 0..3 {
        match receiver_step(&callbacks, &mut events, click(&["menu", "ok"])) {
            ReceiverAction::Continue { handled, run_callback } => {
                match handled {
                    Some(SendTypes::Handled(h)) => assert_eq!(h.path(), &strings(&["menu", "ok"])),
                    other => panic!("unexpected {:?}", other),
                }
                assert_eq!(run_callback, Some(strings(&["menu", "ok"])));
            }
            ReceiverAction::Stop => panic!("stopped"),
        }
    }
    // the click is stored as well
    assert!(events.contains_key(&strings(&["menu", "ok"])));
}

#[test]
fn registering_again_replaces_callback() {
    let mut callbacks: PathMap<&str> = PathMap::new();
    send_button_with_callback(&mut callbacks, &["b"], "one", false, "first");
    send_button_with_callback(&mut callbacks, &["b"], "two", false, "second");
    assert_eq!(callbacks.get(&strings(&["b"])), Some(&"second"));
}

#[test]
fn close_stops_and_ignored_continues() {
    let callbacks: PathMap<u32> = PathMap::new();
    let mut events: PathMap<EventTypes> = PathMap::new();
    assert!(matches!(receiver_step(&callbacks, &mut events, Incoming::Close), ReceiverAction::Stop));
    match receiver_step(&callbacks, &mut events, Incoming::Ignored) {
        ReceiverAction::Continue { handled, run_callback } => {
            assert!(handled.is_none() && run_callback.is_none());
        }
        ReceiverAction::Stop => panic!("stopped"),
    }
    assert!(!events.contains_key(&strings(&[])));
}

#[test]
fn event_accessors() {
    let event = Event::new(strings(&["p"]), EventTypes::Click(Click));
    assert_eq!(event.path(), &strings(&["p"]));
    assert_eq!(event.data(), &EventTypes::Click(Click));
    assert_eq!(event.into_data(), EventTypes::Click(Click));
}

#[test]
fn path_map_operations() {
    let mut map: PathMap<i32> = PathMap::new();
    assert_eq!(map.get(&strings(&["a"])), None);
    map.insert(strings(&["a"]), 1);
    map.insert(strings(&["a", "b"]), 2);
    map.insert(strings(&["a"]), 3);
    assert_eq!(map.get(&strings(&["a"])), Some(&3));
    assert_eq!(map.get(&strings(&["a", "b"])), Some(&2));
    assert_eq!(map.remove(&strings(&["a"])), Some(3));
    assert_eq!(map.remove(&strings(&["a"])), None);
    assert!(!map.contains_key(&strings(&["a"])));
    assert!(map.contains_key(&strings(&["a", "b"])));
}

#[test]
fn paths_compare_segment_by_segment() {
    assert!(paths_equal(&strings(&["a", "b"]), &strings(&["a", "b"])));
    assert!(!paths_equal(&strings(&["a", "b"]), &strings(&["ab"])));
    assert!(!paths_equal(&strings(&["a"]), &strings(&["a", ""])));
    assert!(paths_equal(&strings(&[]), &strings(&[])));
}

#[test]
fn polls_never_outnumber_clicks_over_a_run() {
    let mut callbacks: PathMap<u32> = PathMap::new();
    let mut events: PathMap<EventTypes> = PathMap::new();
    let mut reported = 0;
    let mut clicks = 0;
    // clicks and polls interleaved, with other buttons and registrations between them
    for round in 0..6 {
        if round % 2 == 0 {
            receiver_step(&callbacks, &mut events, click(&["x"]));
            clicks += 1;
            receiver_step(&callbacks, &mut events, click(&["x"]));
            clicks += 1;
        }
        receiver_step(&callbacks, &mut events, click(&["y"]));
        send_button_with_callback(&mut callbacks, &["z"], "z", false, round);
        for _ in 0..2 {
            if poll_button(&mut events, &["x"], "X", true).1 {
                reported += 1;
            }
        }
    }
    assert_eq!(clicks, 6);
    assert_eq!(reported, 3);
    assert!(reported <= clicks);
}

#[test]
fn callback_kept_through_other_registrations() {
    let mut callbacks: PathMap<u32> = PathMap::new();
    let mut events: PathMap<EventTypes> = PathMap::new();
    send_button_with_callback(&mut callbacks, &["a"], "A", false, 1);
    send_button_with_callback(&mut callbacks, &["b"], "B", false, 2);
    receiver_step(&callbacks, &mut events, click(&["b"]));
    poll_button(&mut events, &["a"], "A", false);
    match receiver_step(&callbacks, &mut events, click(&["a"])) {
        ReceiverAction::Continue { run_callback, .. } => {
            let path = run_callback.expect("callback fires");
            assert_eq!(callbacks.get(&path), Some(&1));
        }
        ReceiverAction::Stop => panic!("stopped"),
    }
}

#[test]
fn click_waits_through_other_steps() {
    let callbacks: PathMap<u32> = PathMap::new();
    let mut events: PathMap<EventTypes> = PathMap::new();
    receiver_step(&callbacks, &mut events, click(&["a"]));
    receiver_step(&callbacks, &mut events, click(&["b"]));
    assert!(poll_button(&mut events, &["b"], "B", true).1);
    assert!(!poll_button(&mut events, &["b"], "B", true).1);
    let (packets, clicked) = poll_button(&mut events, &["a"], "A", true);
    assert!(clicked);
    assert_eq!(packets.len(), 2);
}
