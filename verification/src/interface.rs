use vstd::prelude::*;

use crate::path::PathModel;

verus! {

/// What a widget shows, as the contracts see it.
pub enum WidgetModel {
    Node { card: bool },
    Text { text: Seq<char>, card: bool },
    Button { text: Seq<char>, card: bool },
}

/// What a packet sent to the web interface says, as the contracts see it.
pub enum PacketModel {
    Widget { path: PathModel, widget: WidgetModel },
    Delete { path: PathModel },
    Clear,
    Handled { path: PathModel },
}

/// Highest level of packet type sendable to the interface
#[derive(Debug)]
pub enum SendTypes {
    Widget(WidgetPacket),
    Delete(DeletePacket),
    Clear,
    Handled(HandledPacket),
}

/// Delete a widget
#[derive(Debug)]
pub struct DeletePacket {
    path: Vec<String>,
}

/// Confirm that an event has been handled (e.g. button click)
#[derive(Debug)]
pub struct HandledPacket {
    path: Vec<String>,
}

/// Send a widget to the web interface
#[derive(Debug)]
pub struct WidgetPacket {
    path: Vec<String>,
    widget: Widget,
}

/// Types of widgets available
#[derive(Debug)]
pub enum Widget {
    Node(NodeWidget),
    Text(TextWidget),
    Button(ButtonWidget),
}

#[derive(Debug)]
pub struct NodeWidget {
    card: bool,
}

#[derive(Debug)]
pub struct TextWidget {
    text: String,
    card: bool,
}

#[derive(Debug)]
pub struct ButtonWidget {
    text: String,
    card: bool,
}

impl View for DeletePacket {
    type V = PathModel;

    closed spec fn view(&self) -> PathModel {
        self.path.deep_view()
    }
}

impl View for HandledPacket {
    type V = PathModel;

    closed spec fn view(&self) -> PathModel {
        self.path.deep_view()
    }
}

impl View for NodeWidget {
    type V = WidgetModel;

    closed spec fn view(&self) -> WidgetModel {
        WidgetModel::Node { card: self.card }
    }
}

impl View for TextWidget {
    type V = WidgetModel;

    closed spec fn view(&self) -> WidgetModel {
        WidgetModel::Text { text: self.text@, card: self.card }
    }
}

impl View for ButtonWidget {
    type V = WidgetModel;

    closed spec fn view(&self) -> WidgetModel {
        WidgetModel::Button { text: self.text@, card: self.card }
    }
}

impl View for Widget {
    type V = WidgetModel;

    open spec fn view(&self) -> WidgetModel {
        match self {
            Widget::Node(w) => w@,
            Widget::Text(w) => w@,
            Widget::Button(w) => w@,
        }
    }
}

impl View for WidgetPacket {
    type V = PacketModel;

    closed spec fn view(&self) -> PacketModel {
        PacketModel::Widget { path: self.path.deep_view(), widget: self.widget@ }
    }
}

impl View for SendTypes {
    type V = PacketModel;

    open spec fn view(&self) -> PacketModel {
        match self {
            SendTypes::Widget(p) => p@,
            SendTypes::Delete(p) => PacketModel::Delete { path: p@ },
            SendTypes::Clear => PacketModel::Clear,
            SendTypes::Handled(p) => PacketModel::Handled { path: p@ },
        }
    }
}

impl DeletePacket {
    pub fn new(path: Vec<String>) -> (packet: Self)
        ensures
            packet@ == path.deep_view(),
    {
        DeletePacket { path }
    }

    /// The path of the widget to delete.
    pub fn path(&self) -> (path: &Vec<String>)
        ensures
            path.deep_view() == self@,
    {
        &self.path
    }
}

impl HandledPacket {
    pub fn new(path: Vec<String>) -> (packet: Self)
        ensures
            packet@ == path.deep_view(),
    {
        HandledPacket { path }
    }

    /// The path of the widget whose event was handled.
    pub fn path(&self) -> (path: &Vec<String>)
        ensures
            path.deep_view() == self@,
    {
        &self.path
    }
}

impl WidgetPacket {
    pub fn new(path: Vec<String>, widget: Widget) -> (packet: Self)
        ensures
            packet@ == (PacketModel::Widget { path: path.deep_view(), widget: widget@ }),
    {
        WidgetPacket { path, widget }
    }

    /// The path of the widget.
    pub fn path(&self) -> (path: &Vec<String>)
        ensures
            self@ matches PacketModel::Widget { path: p, .. } && p == path.deep_view(),
    {
        &self.path
    }

    /// The path and the widget, taken apart.
    pub fn into_parts(self) -> (parts: (Vec<String>, Widget))
        ensures
            self@ == (PacketModel::Widget { path: parts.0.deep_view(), widget: parts.1@ }),
    {
        (self.path, self.widget)
    }

    /// The widget to create or update.
    pub fn widget(&self) -> (widget: &Widget)
        ensures
            self@ matches PacketModel::Widget { widget: w, .. } && w == widget@,
    {
        &self.widget
    }
}

impl NodeWidget {
    pub fn new(card: bool) -> (widget: Self)
        ensures
            widget@ == (WidgetModel::Node { card }),
    {
        NodeWidget { card }
    }

    /// Whether the node is drawn as a card.
    pub fn card(&self) -> (card: bool)
        ensures
            self@ == (WidgetModel::Node { card }),
    {
        self.card
    }
}

impl TextWidget {
    pub fn new(text: String, card: bool) -> (widget: Self)
        ensures
            widget@ == (WidgetModel::Text { text: text@, card }),
    {
        TextWidget { text, card }
    }

    /// The text shown.
    pub fn text(&self) -> (text: &String)
        ensures
            self@ matches WidgetModel::Text { text: t, .. } && t == text@,
    {
        &self.text
    }

    /// Whether the text is drawn as a card.
    pub fn card(&self) -> (card: bool)
        ensures
            self@ matches WidgetModel::Text { card: c, .. } && c == card,
    {
        self.card
    }
}

impl ButtonWidget {
    pub fn new(text: String, card: bool) -> (widget: Self)
        ensures
            widget@ == (WidgetModel::Button { text: text@, card }),
    {
        ButtonWidget { text, card }
    }

    /// The button's label.
    pub fn text(&self) -> (text: &String)
        ensures
            self@ matches WidgetModel::Button { text: t, .. } && t == text@,
    {
        &self.text
    }

    /// Whether the button is drawn as a card.
    pub fn card(&self) -> (card: bool)
        ensures
            self@ matches WidgetModel::Button { card: c, .. } && c == card,
    {
        self.card
    }
}

/// Event receivable from the web interface
pub struct Event {
    path: Vec<String>,
    data: EventTypes,
}

#[derive(Debug, Clone, Copy, PartialEq, Eq, Structural)]
pub enum EventTypes {
    Click(Click),
}

#[derive(Debug, Clone, Copy, PartialEq, Eq, Structural)]
pub struct Click;

impl View for Event {
    type V = (PathModel, EventTypes);

    closed spec fn view(&self) -> (PathModel, EventTypes) {
        (self.path.deep_view(), self.data)
    }
}

impl Event {
    pub fn new(path: Vec<String>, data: EventTypes) -> (event: Self)
        ensures
            event@ == (path.deep_view(), data),
    {
        Event { path, data }
    }

    /// The path of the widget the event comes from.
    pub fn path(&self) -> (path: &Vec<String>)
        ensures
            path.deep_view() == self@.0,
    {
        &self.path
    }

    /// What happened.
    pub fn data(&self) -> (data: &EventTypes)
        ensures
            *data == self@.1,
    {
        &self.data
    }

    pub fn into_data(self) -> (data: EventTypes)
        ensures
            data == self@.1,
    {
        self.data
    }
}

} // verus!
