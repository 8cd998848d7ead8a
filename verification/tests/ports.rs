use grass_latte::{
    prepare_page, insert_after_last, inject_port_range, opens_session, port_candidates, port_range_text, serve_webpage,
    serve_webpage_at_port, serve_webpage_at_port_flexible, server_address, set_port_range,
    MessageKind, PortRangeSetting, ServePlan, DEFAULT_PORT_RANGE, PORT_MARKER,
};

#[test]
fn port_range_is_set_once() {
    let mut setting = PortRangeSetting::new();
    assert_eq!(setting.get(), None);
    set_port_range(&mut setting, (4000, 4010));
    assert_eq!(setting.get(), Some((4000, 4010)));
    assert_eq!(setting.set((5000, 5010)), Err((4000, 4010)));
    assert_eq!(setting.get(), Some((4000, 4010)));
    assert_eq!(setting.get_or_init_default(), (4000, 4010));
}

#[test]
fn using_the_range_fixes_the_default() {
    let mut setting = PortRangeSetting::new();
    assert_eq!(setting.get_or_init_default(), (3030, 3035));
    assert_eq!(DEFAULT_PORT_RANGE, (3030, 3035));
    assert_eq!(setting.set((1, 2)), Err((3030, 3035)));
    assert_eq!(setting.get_or_init_default(), (3030, 3035));
}

#[test]
fn candidates_cover_the_range() {
    assert_eq!(port_candidates(3030, 3035), vec![3030, 3031, 3032, 3033, 3034, 3035]);
    assert_eq!(port_candidates(7, 7), vec![7]);
    assert_eq!(port_candidates(8, 7), Vec::<u16>::new());
    assert_eq!(port_candidates(65534, 65535), vec![65534, 65535]);
}

#[test]
fn serve_plans() {
    let mut setting = PortRangeSetting::new();
    assert_eq!(serve_webpage(&mut setting, "").plan, ServePlan { web_port: 8080, allow_move: true });
    assert_eq!(
        serve_webpage_at_port(&mut setting, "", 9000).plan,
        ServePlan { web_port: 9000, allow_move: false }
    );
    assert_eq!(
        serve_webpage_at_port_flexible(&mut setting, "", 9000).plan,
        ServePlan { web_port: 9000, allow_move: true }
    );
    assert_eq!(serve_webpage_at_port(&mut setting, "", 9000).plan.candidate_ports(), vec![9000]);
    let flexible = serve_webpage(&mut setting, "").plan.candidate_ports();
    assert_eq!(flexible.len(), 1001);
    assert_eq!(flexible[0], 8080);
    assert_eq!(flexible[1000], 9080);
}

#[test]
fn port_texts() {
    assert_eq!(port_range_text((3030, 3035)), "3030-3035");
    assert_eq!(port_range_text((0, 65535)), "0-65535");
    assert_eq!(port_range_text((9, 10)), "9-10");
    assert_eq!(server_address(8080), "127.0.0.1:8080");
    assert_eq!(server_address(0), "127.0.0.1:0");
}

#[test]
fn range_goes_after_the_last_marker() {
    let html = format!("<html>{m}</div><p>é</p>{m}</div></html>", m = PORT_MARKER);
    let expected = format!("<html>{m}</div><p>é</p>{m}3030-3035</div></html>", m = PORT_MARKER);
    assert_eq!(inject_port_range(&html, (3030, 3035)), Some(expected));
}

#[test]
fn marker_at_the_end() {
    let html = format!("ä{}", PORT_MARKER);
    assert_eq!(inject_port_range(&html, (1, 2)), Some(format!("ä{}1-2", PORT_MARKER)));
}

#[test]
fn page_without_marker() {
    assert_eq!(inject_port_range("<html></html>", (1, 2)), None);
    assert_eq!(inject_port_range("", (1, 2)), None);
}

#[test]
fn only_a_closing_session_is_dropped() {
    assert!(!opens_session(MessageKind::Close));
    for kind in [
        MessageKind::Text,
        MessageKind::Binary,
        MessageKind::Ping,
        MessageKind::Pong,
        MessageKind::Frame,
    ] {
        assert!(opens_session(kind));
    }
}

#[test]
fn insertion_after_last_of_any_marker() {
    assert_eq!(insert_after_last("a|b|c", "|", "X"), Some("a|b|Xc".to_string()));
    assert_eq!(insert_after_last("aaa", "aa", "-"), Some("aaa-".to_string()));
    assert_eq!(insert_after_last("abc", "", "-"), Some("abc-".to_string()));
    assert_eq!(insert_after_last("ab", "abc", "-"), None);
}

#[test]
fn first_bindable_port_is_served() {
    let plan = serve_webpage_at_port_flexible(&mut PortRangeSetting::new(), "", 9000).plan;
    assert_eq!(plan.first_bindable(&vec![true]), Some(9000));
    assert_eq!(plan.first_bindable(&vec![false, false, true]), Some(9002));
    assert_eq!(plan.first_bindable(&vec![false, true, true]), Some(9001));
    assert_eq!(plan.first_bindable(&vec![false; 1001]), None);
    assert_eq!(plan.first_bindable(&Vec::new()), None);
    let mut last = vec![false; 1000];
    last.push(true);
    assert_eq!(plan.first_bindable(&last), Some(10000));
}

#[test]
fn preparing_the_page_fixes_the_range() {
    let mut setting = PortRangeSetting::new();
    let html = format!("<p>{}</p>", PORT_MARKER);
    let (range, page) = prepare_page(&mut setting, &html);
    assert_eq!(range, (3030, 3035));
    assert_eq!(page, Some(format!("<p>{}3030-3035</p>", PORT_MARKER)));
    assert_eq!(setting.set((1, 2)), Err((3030, 3035)));
    // the websocket side reads the same range afterwards
    assert_eq!(setting.get_or_init_default(), range);
}

#[test]
fn preparing_the_page_uses_the_range_set() {
    let mut setting = PortRangeSetting::new();
    set_port_range(&mut setting, (4000, 4002));
    let (range, page) = prepare_page(&mut setting, "no marker here");
    assert_eq!(range, (4000, 4002));
    assert_eq!(page, None);
}

#[test]
fn range_stays_read_only_over_a_run() {
    let mut setting = PortRangeSetting::new();
    set_port_range(&mut setting, (5000, 5001));
    for attempt in [(1, 1), (5000, 5001), (7, 9)] {
        assert_eq!(setting.set(attempt), Err((5000, 5001)));
        assert_eq!(setting.get_or_init_default(), (5000, 5001));
    }
    assert_eq!(setting.get(), Some((5000, 5001)));
}

#[test]
fn serving_fixes_the_range_and_prepares_the_page() {
    let html = format!("<b>{}</b>", PORT_MARKER);
    let mut setting = PortRangeSetting::new();
    let serving = serve_webpage_at_port(&mut setting, &html, 9000);
    assert_eq!(serving.websocket_ports, (3030, 3035));
    assert_eq!(serving.page, Some(format!("<b>{}3030-3035</b>", PORT_MARKER)));
    assert_eq!(setting.get(), Some((3030, 3035)));
    assert_eq!(setting.set((4000, 4005)), Err((3030, 3035)));

    let mut setting = PortRangeSetting::new();
    set_port_range(&mut setting, (4000, 4005));
    let serving = serve_webpage(&mut setting, &html);
    assert_eq!(serving.websocket_ports, (4000, 4005));
    assert_eq!(serving.page, Some(format!("<b>{}4000-4005</b>", PORT_MARKER)));
    let serving = serve_webpage_at_port_flexible(&mut setting, "plain", 9000);
    assert_eq!(serving.websocket_ports, (4000, 4005));
    assert_eq!(serving.page, None);
}
