use vstd::prelude::*;

use crate::communication_backend::{set_transition, use_transition, PortRangeSetting};
use crate::text::{decimal, insert_after_last, inserted_after_last, is_last_occurrence, occurs_at, push_decimal};

verus! {

/// The port the web interface is served on when none is given.
pub const DEFAULT_WEB_PORT: u16 = 8080;

/// How far above its target port the web interface may move when the target is taken.
pub const WEB_PORT_SPAN: u16 = 1000;

/// The element of the page after which the websocket port range is written.
pub const PORT_MARKER: &'static str = "<div id=\"port-marker-he9RYeXH5Psd7vcKOzWs\" style=\"display: none;\">";

/// Changes the range of ports used for websockets. Can only be set once and must be set
/// before the ports are used: the range must not be fixed yet (`setting.get()` tells).
///
/// This must be aligned with other projects, should you want multiple to connect to the same web
/// interface. The amount of ports available in the range dictates the maximum number of connection
/// to the web interface, but can also slow web interface discovery of new connections.
pub fn set_port_range(setting: &mut PortRangeSetting, range: (u16, u16))
    requires
        old(setting)@ is None,
    ensures
        final(setting)@ == Some(range),
        (final(setting)@, Ok::<(), (u16, u16)>(())) == set_transition(old(setting)@, range),
{
    let _ = setting.set(range);
}

/// Where to serve the web interface: a target port, and whether another port above it
/// may be taken when the target is in use.
#[derive(Debug, Clone, Copy, PartialEq, Eq, Structural)]
pub struct ServePlan {
    pub web_port: u16,
    pub allow_move: bool,
}

/// What serving the web interface starts from: where to serve it, the websocket port range
/// the page names, and the page itself (`None` when the page holds no port marker).
#[derive(Debug)]
pub struct Serving {
    pub plan: ServePlan,
    pub websocket_ports: (u16, u16),
    pub page: Option<String>,
}

/// `page` is `html` with `range` written right after its last port marker, or `None` when
/// `html` holds no port marker.
pub open spec fn page_names_range(html: Seq<char>, range: (u16, u16), page: Option<Seq<char>>) -> bool {
    match page {
        Some(out) => exists|i: int|
            is_last_occurrence(html, PORT_MARKER@, i) && out == #[trigger] inserted_after_last(
                html,
                PORT_MARKER@,
                port_range_model(range),
                i,
            ),
        None => forall|j: int| !#[trigger] occurs_at(html, PORT_MARKER@, j),
    }
}

fn serve_with(setting: &mut PortRangeSetting, html: &str, plan: ServePlan) -> (serving: Serving)
    ensures
        serving.plan == plan,
        (final(setting)@, serving.websocket_ports) == use_transition(old(setting)@),
        page_names_range(html@, serving.websocket_ports, serving.page.deep_view()),
{
    let (websocket_ports, page) = prepare_page(setting, html);
    Serving { plan, websocket_ports, page }
}

/// Serve the web interface on any port: at the default port, or above it when it is
/// taken. Serving fixes the websocket port range and writes it into the page.
pub fn serve_webpage(setting: &mut PortRangeSetting, html: &str) -> (serving: Serving)
    ensures
        serving.plan == (ServePlan { web_port: DEFAULT_WEB_PORT, allow_move: true }),
        (final(setting)@, serving.websocket_ports) == use_transition(old(setting)@),
        page_names_range(html@, serving.websocket_ports, serving.page.deep_view()),
{
    serve_with(setting, html, ServePlan { web_port: DEFAULT_WEB_PORT, allow_move: true })
}

/// Serve the web interface at a specific port. Serving fixes the websocket port range and
/// writes it into the page.
pub fn serve_webpage_at_port(setting: &mut PortRangeSetting, html: &str, web_port: u16) -> (serving:
    Serving)
    ensures
        serving.plan == (ServePlan { web_port, allow_move: false }),
        (final(setting)@, serving.websocket_ports) == use_transition(old(setting)@),
        page_names_range(html@, serving.websocket_ports, serving.page.deep_view()),
{
    serve_with(setting, html, ServePlan { web_port, allow_move: false })
}

/// Serve the web interface at a target port which can be changed, should the target be in use.
/// Serving fixes the websocket port range and writes it into the page.
pub fn serve_webpage_at_port_flexible(
    setting: &mut PortRangeSetting,
    html: &str,
    target_web_port: u16,
) -> (serving: Serving)
    ensures
        serving.plan == (ServePlan { web_port: target_web_port, allow_move: true }),
        (final(setting)@, serving.websocket_ports) == use_transition(old(setting)@),
        page_names_range(html@, serving.websocket_ports, serving.page.deep_view()),
{
    serve_with(setting, html, ServePlan { web_port: target_web_port, allow_move: true })
}

/// How many ports a plan may try: the target alone when it is fixed, else the target and
/// the next `WEB_PORT_SPAN` ports.
pub open spec fn candidate_count(plan: ServePlan) -> int {
    if plan.allow_move {
        WEB_PORT_SPAN + 1
    } else {
        1int
    }
}

impl ServePlan {
    /// The ports to try, in order: the target alone when it is fixed, else the target and
    /// the next `WEB_PORT_SPAN` ports.
    pub fn candidate_ports(&self) -> (ports: Vec<u16>)
        requires
            self.allow_move ==> self.web_port + WEB_PORT_SPAN <= u16::MAX,
        ensures
            ports@.len() == candidate_count(*self),
            forall|i: int| 0 <= i < ports@.len() ==> #[trigger] ports@[i] == self.web_port + i,
    {
        if self.allow_move {
            crate::communication_backend::port_candidates(
                self.web_port,
                self.web_port + WEB_PORT_SPAN,
            )
        } else {
            let mut ports: Vec<u16> = Vec::new();
            ports.push(self.web_port);
            ports
        }
    }

    /// The port to serve at, given whether the candidate ports, tried in order, could be
    /// bound: the first one that could. `bindable` holds the outcomes of the tries made,
    /// which may stop at the first success; `None` when none of them succeeded.
    pub fn first_bindable(&self, bindable: &Vec<bool>) -> (port: Option<u16>)
        requires
            self.allow_move ==> self.web_port + WEB_PORT_SPAN <= u16::MAX,
            bindable@.len() <= candidate_count(*self),
        ensures
            match port {
                Some(p) => {
                    &&& self.web_port <= p < self.web_port + bindable@.len()
                    &&& bindable@[p - self.web_port]
                    &&& forall|j: int| 0 <= j < p - self.web_port ==> !#[trigger] bindable@[j]
                },
                None => forall|j: int| 0 <= j < bindable@.len() ==> !#[trigger] bindable@[j],
            },
    {
        let n = bindable.len();
        for i in 0..n
            invariant
                n == bindable@.len(),
                n <= candidate_count(*self),
                self.allow_move ==> self.web_port + WEB_PORT_SPAN <= u16::MAX,
                forall|j: int| 0 <= j < i ==> !#[trigger] bindable@[j],
        {
            if bindable[i] {
                assert(self.web_port + i <= u16::MAX);
                let port = self.web_port + i as u16;
                assert(port - self.web_port == i);
                return Some(port);
            }
        }
        None
    }
}

/// The page to serve, and the websocket port range it names: serving uses the port range,
/// which fixes the default when none was set, and writes that range into the page right
/// after its last port marker (`None` when the page holds no marker).
pub fn prepare_page(setting: &mut PortRangeSetting, html: &str) -> (res: ((u16, u16), Option<String>))
    ensures
        (final(setting)@, res.0) == use_transition(old(setting)@),
        page_names_range(html@, res.0, res.1.deep_view()),
{
    let range = setting.get_or_init_default();
    let page = inject_port_range(html, range);
    (range, page)
}

/// The text of a port range: its two ends, joined by a hyphen.
pub open spec fn port_range_model(range: (u16, u16)) -> Seq<char> {
    decimal(range.0 as nat) + seq!['-'] + decimal(range.1 as nat)
}

/// Writes a port range as text, e.g. `3030-3035`.
pub fn port_range_text(range: (u16, u16)) -> (text: String)
    ensures
        text@ == port_range_model(range),
{
    let mut text = String::new();
    push_decimal(&mut text, range.0);
    proof {
        reveal_strlit("-");
    }
    text.append("-");
    push_decimal(&mut text, range.1);
    text
}

/// The local address a port is served at, e.g. `127.0.0.1:8080`.
pub open spec fn server_address_model(port: u16) -> Seq<char> {
    seq!['1', '2', '7', '.', '0', '.', '0', '.', '1', ':'] + decimal(port as nat)
}

/// Writes the local address of a port.
pub fn server_address(port: u16) -> (address: String)
    ensures
        address@ == server_address_model(port),
{
    proof {
        reveal_strlit("127.0.0.1:");
    }
    let mut address = String::new();
    address.append("127.0.0.1:");
    push_decimal(&mut address, port);
    assert(address@ =~= server_address_model(port));
    address
}

/// The page with the websocket port range written right after the last port marker;
/// `None` when the page holds no marker.
pub fn inject_port_range(html: &str, range: (u16, u16)) -> (page: Option<String>)
    ensures
        page_names_range(html@, range, page.deep_view()),
{
    let text = port_range_text(range);
    insert_after_last(html, PORT_MARKER, text.as_str())
}

} // verus!
