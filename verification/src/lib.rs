//! Building blocks of a small web dashboard: the packets that create, update and
//! delete widgets, the bookkeeping of button clicks received from the browser, and
//! the port settings of the websocket and web servers.
//!
//! The library decides and builds; the program around it sends the packets, reads the
//! websocket and serves the page.

mod communication;
mod communication_backend;
mod interface;
mod laws;
mod path;
mod path_map;
mod text;
mod webpage;

pub use communication::{
    button_packet, clear_widgets, delete_widget, poll_button, poll_transition,
    send_button_with_callback, send_node, send_text,
};
pub use communication_backend::{
    opens_session, port_candidates, receive_transition, receiver_step, set_transition,
    use_transition, Incoming, MessageKind, PortRangeSetting, ReceiverAction, DEFAULT_PORT_RANGE,
};
pub use interface::{
    ButtonWidget, Click, DeletePacket, Event, EventTypes, HandledPacket, NodeWidget, PacketModel,
    SendTypes, TextWidget, Widget, WidgetModel, WidgetPacket,
};
pub use laws::{
    digits_value, is_digit, is_numeral, law_decimal_reads_back, law_port_range_text_reads_back,
    law_range_written_after_last_marker, law_server_address_reads_back, marker_stands_at,
    button_step, is_click_of, is_poll_of, is_register_of, law_all_uses_agree,
    law_callback_fires_on_every_later_click, law_click_waits_for_next_poll,
    law_no_report_without_click, law_polls_never_outnumber_clicks, law_port_range_read_only,
    received_clicks, reported_polls, run_buttons, run_ports, waiting, ButtonState, ButtonStep,
    PortStep, law_callback_runs_on_every_click, law_click_reported_once, law_click_without_callback_is_kept,
    law_poll_leaves_other_buttons, law_poll_reports_at_most_once, law_port_range_fixed_by_use,
    law_port_range_set_once,
};
pub use path::{clone_path, path_from_strs, paths_equal, PathModel};
pub use path_map::PathMap;
pub use text::{
    decimal, digit_char, insert_after_last, inserted_after_last, is_last_occurrence, occurs_at,
};
pub use webpage::{
    candidate_count, inject_port_range, port_range_model, prepare_page, port_range_text, serve_webpage, serve_webpage_at_port,
    serve_webpage_at_port_flexible, server_address, server_address_model, set_port_range,
    page_names_range, ServePlan, Serving, DEFAULT_WEB_PORT, PORT_MARKER, WEB_PORT_SPAN,
};
