use grass_latte::{
    clear_widgets, delete_widget, path_from_strs, send_node, send_text, SendTypes, Widget,
    DeletePacket, HandledPacket, NodeWidget, TextWidget, ButtonWidget, WidgetPacket,
};

fn strings(path: &[&str]) -> Vec<String> {
    path.iter().map(|s| s.to_string()).collect()
}

#[test]
fn node_packet_carries_path_and_card() {
    match send_node(&["root", "child"], true) {
        SendTypes::Widget(packet) => {
            assert_eq!(packet.path(), &strings(&["root", "child"]));
            match packet.widget() {
                Widget::Node(node) => assert!(node.card()),
                other => panic!("unexpected widget {:?}", other),
            }
        }
        other => panic!("unexpected packet {:?}", other),
    }
}

#[test]
fn node_packet_without_card() {
    match send_node(&["n"], false) {
        SendTypes::Widget(packet) => match packet.widget() {
            Widget::Node(node) => assert!(!node.card()),
            other => panic!("unexpected widget {:?}", other),
        },
        other => panic!("unexpected packet {:?}", other),
    }
}

#[test]
fn text_packet_carries_text() {
    match send_text(&["status"], "Running: 3/5 ✓", false) {
        SendTypes::Widget(packet) => {
            assert_eq!(packet.path(), &strings(&["status"]));
            match packet.widget() {
                Widget::Text(text) => {
                    assert_eq!(text.text(), "Running: 3/5 ✓");
                    assert!(!text.card());
                }
                other => panic!("unexpected widget {:?}", other),
            }
        }
        other => panic!("unexpected packet {:?}", other),
    }
}

#[test]
fn empty_path_is_kept_empty() {
    match send_node(&[], true) {
        SendTypes::Widget(packet) => assert!(packet.path().is_empty()),
        other => panic!("unexpected packet {:?}", other),
    }
}

#[test]
fn delete_packet_carries_path() {
    match delete_widget(&["a", "b", "c"]) {
        SendTypes::Delete(packet) => assert_eq!(packet.path(), &strings(&["a", "b", "c"])),
        other => panic!("unexpected packet {:?}", other),
    }
}

#[test]
fn clear_packet() {
    assert!(matches!(clear_widgets(), SendTypes::Clear));
}

#[test]
fn constructors_keep_fields() {
    let packet = WidgetPacket::new(strings(&["x"]), Widget::Button(ButtonWidget::new("go".to_string(), true)));
    assert_eq!(packet.path(), &strings(&["x"]));
    match packet.widget() {
        Widget::Button(b) => {
            assert_eq!(b.text(), "go");
            assert!(b.card());
        }
        other => panic!("unexpected widget {:?}", other),
    }
    assert_eq!(DeletePacket::new(strings(&["d"])).path(), &strings(&["d"]));
    assert_eq!(HandledPacket::new(strings(&["h"])).path(), &strings(&["h"]));
    assert!(NodeWidget::new(true).card());
    let t = TextWidget::new("t".to_string(), false);
    assert_eq!(t.text(), "t");
    assert!(!t.card());
}

#[test]
fn path_from_strs_copies_segments() {
    assert_eq!(path_from_strs(&["a", "", "ü"]), strings(&["a", "", "ü"]));
}
