use vstd::prelude::*;

use crate::interface::{
    ButtonWidget, DeletePacket, EventTypes, HandledPacket, NodeWidget, PacketModel, SendTypes,
    TextWidget, Widget, WidgetModel, WidgetPacket,
};
use crate::path::{clone_path, path_from_strs, PathModel};
use crate::path_map::PathMap;

verus! {

/// The packet that creates or updates a button.
pub open spec fn button_packet(path: PathModel, text: Seq<char>, card: bool) -> PacketModel {
    PacketModel::Widget { path, widget: WidgetModel::Button { text, card } }
}

/// What polling a button does to the received events: the event stored under the
/// button's path is taken out, and the poll reports whether there was one.
pub open spec fn poll_transition(events: Map<PathModel, EventTypes>, path: PathModel) -> (
    Map<PathModel, EventTypes>,
    bool,
) {
    (events.remove(path), events.dom().contains(path))
}

/// Builds the packet that creates or updates a node widget.
pub fn send_node(path: &[&str], card: bool) -> (packet: SendTypes)
    ensures
        packet@ == (PacketModel::Widget {
            path: path.deep_view(),
            widget: WidgetModel::Node { card },
        }),
{
    SendTypes::Widget(WidgetPacket::new(path_from_strs(path), Widget::Node(NodeWidget::new(card))))
}

/// Builds the packet that creates or updates a text widget.
pub fn send_text(path: &[&str], text: &str, card: bool) -> (packet: SendTypes)
    ensures
        packet@ == (PacketModel::Widget {
            path: path.deep_view(),
            widget: WidgetModel::Text { text: text@, card },
        }),
{
    SendTypes::Widget(
        WidgetPacket::new(
            path_from_strs(path),
            Widget::Text(TextWidget::new(text.to_owned(), card)),
        ),
    )
}

/// Registers `callback` for the button at `path`, replacing any earlier one, and builds
/// the packet that creates or updates the button. The callback is to run every time the
/// button is clicked (see `receiver_step`).
pub fn send_button_with_callback<F>(
    callbacks: &mut PathMap<F>,
    path: &[&str],
    text: &str,
    card: bool,
    callback: F,
) -> (packet: SendTypes)
    ensures
        final(callbacks)@ == old(callbacks)@.insert(path.deep_view(), callback),
        packet@ == button_packet(path.deep_view(), text@, card),
{
    let path = path_from_strs(path);
    callbacks.insert(clone_path(&path), callback);
    SendTypes::Widget(
        WidgetPacket::new(path, Widget::Button(ButtonWidget::new(text.to_owned(), card))),
    )
}

/// Creates or updates the button at `path` and reports, once, whether it was clicked
/// since the last poll. Returns the packets to send, in order, and whether it was clicked:
/// the button's packet always, and the confirmation that the click was handled when it was.
pub fn poll_button(events: &mut PathMap<EventTypes>, path: &[&str], text: &str, card: bool) -> (res:
    (Vec<SendTypes>, bool))
    ensures
        final(events)@ == poll_transition(old(events)@, path.deep_view()).0,
        res.1 == poll_transition(old(events)@, path.deep_view()).1,
        res.0@.len() == (if res.1 {
            2int
        } else {
            1int
        }),
        res.0@[0]@ == button_packet(path.deep_view(), text@, card),
        res.1 ==> res.0@[1]@ == (PacketModel::Handled { path: path.deep_view() }),
{
    let path = path_from_strs(path);
    let mut packets: Vec<SendTypes> = Vec::new();
    packets.push(
        SendTypes::Widget(
            WidgetPacket::new(
                clone_path(&path),
                Widget::Button(ButtonWidget::new(text.to_owned(), card)),
            ),
        ),
    );
    let clicked = match events.remove(&path) {
        Some(EventTypes::Click(_)) => {
            packets.push(SendTypes::Handled(HandledPacket::new(path)));
            true
        },
        None => false,
    };
    (packets, clicked)
}

/// Builds the packet that deletes the widget at `path`.
pub fn delete_widget(path: &[&str]) -> (packet: SendTypes)
    ensures
        packet@ == (PacketModel::Delete { path: path.deep_view() }),
{
    SendTypes::Delete(DeletePacket::new(path_from_strs(path)))
}

/// Builds the packet that deletes all widgets.
pub fn clear_widgets() -> (packet: SendTypes)
    ensures
        packet@ == PacketModel::Clear,
{
    SendTypes::Clear
}

} // verus!
