use vstd::prelude::*;

use crate::communication::poll_transition;
use crate::communication_backend::{receive_transition, set_transition, use_transition};
use crate::interface::{Click, EventTypes};
use crate::path::PathModel;
use crate::text::{decimal, digit_char, inserted_after_last, is_last_occurrence, occurs_at};
use crate::webpage::{page_names_range, port_range_model, server_address_model, PORT_MARKER};

verus! {

/// The port range can only be set once: after any attempt, a second attempt is refused
/// with the range fixed by then and changes nothing; the first attempt on an unset range
/// fixes the range it was given.
pub proof fn law_port_range_set_once(
    setting: Option<(u16, u16)>,
    first: (u16, u16),
    second: (u16, u16),
)
    ensures
        ({
            let (after_first, first_result) = set_transition(setting, first);
            let (after_second, second_result) = set_transition(after_first, second);
            &&& setting is None ==> after_first == Some(first) && first_result is Ok
            &&& after_first is Some
            &&& after_second == after_first
            &&& second_result == Err::<(), (u16, u16)>(after_first.unwrap())
        }),
{
}

/// The port range must be set before the ports are used: once used, setting it is refused
/// with the range in use, and the range stays the one in use.
pub proof fn law_port_range_fixed_by_use(setting: Option<(u16, u16)>, range: (u16, u16))
    ensures
        ({
            let (after_use, used) = use_transition(setting);
            let (after_set, result) = set_transition(after_use, range);
            &&& after_set == after_use
            &&& result == Err::<(), (u16, u16)>(used)
            &&& use_transition(after_set).1 == used
        }),
{
}

/// A click on a button is reported by the next poll of that button, and by no later
/// poll until the button is clicked again.
pub proof fn law_click_reported_once(
    registered: Set<PathModel>,
    events: Map<PathModel, EventTypes>,
    path: PathModel,
)
    ensures
        ({
            let (received, _) = receive_transition(
                registered,
                events,
                (path, EventTypes::Click(Click)),
            );
            let (after_poll, clicked) = poll_transition(received, path);
            let (_, clicked_again) = poll_transition(after_poll, path);
            &&& clicked
            &&& !clicked_again
        }),
{
}

/// Polling a button never reports the same click twice.
pub proof fn law_poll_reports_at_most_once(events: Map<PathModel, EventTypes>, path: PathModel)
    ensures
        !poll_transition(poll_transition(events, path).0, path).1,
{
}

/// Polling a button leaves the clicks of every other button in place.
pub proof fn law_poll_leaves_other_buttons(
    events: Map<PathModel, EventTypes>,
    path: PathModel,
    other: PathModel,
)
    requires
        other != path,
    ensures
        poll_transition(events, path).0.dom().contains(other) == events.dom().contains(other),
        events.dom().contains(other) ==> poll_transition(events, path).0[other] == events[other],
{
}

/// A callback registered for a button runs on every click of that button, whatever
/// was received before.
pub proof fn law_callback_runs_on_every_click<F>(
    callbacks: Map<PathModel, F>,
    callback: F,
    events: Map<PathModel, EventTypes>,
    path: PathModel,
)
    ensures
        receive_transition(
            callbacks.insert(path, callback).dom(),
            events,
            (path, EventTypes::Click(Click)),
        ).1,
{
}

/// A click on a button without a callback runs nothing, and is kept for polling.
pub proof fn law_click_without_callback_is_kept(
    registered: Set<PathModel>,
    events: Map<PathModel, EventTypes>,
    path: PathModel,
)
    requires
        !registered.contains(path),
    ensures
        ({
            let (received, fires) = receive_transition(
                registered,
                events,
                (path, EventTypes::Click(Click)),
            );
            &&& !fires
            &&& received.dom().contains(path)
        }),
{
}

/// One step of a run of the button side of the library: registering a callback
/// (`send_button_with_callback`), receiving a click (`receiver_step`), or polling a button
/// (`poll_button`).
pub enum ButtonStep<F> {
    Register(PathModel, F),
    Click(PathModel),
    Poll(PathModel),
}

/// The callbacks registered and the clicks waiting to be polled, by path.
pub struct ButtonState<F> {
    pub callbacks: Map<PathModel, F>,
    pub events: Map<PathModel, EventTypes>,
}

pub open spec fn is_register_of<F>(step: ButtonStep<F>, path: PathModel) -> bool {
    match step {
        ButtonStep::Register(p, _) => p == path,
        _ => false,
    }
}

pub open spec fn is_click_of<F>(step: ButtonStep<F>, path: PathModel) -> bool {
    match step {
        ButtonStep::Click(p) => p == path,
        _ => false,
    }
}

pub open spec fn is_poll_of<F>(step: ButtonStep<F>, path: PathModel) -> bool {
    match step {
        ButtonStep::Poll(p) => p == path,
        _ => false,
    }
}

/// What one step does to the state, as the step's function states it.
pub open spec fn button_step<F>(state: ButtonState<F>, step: ButtonStep<F>) -> ButtonState<F> {
    match step {
        ButtonStep::Register(p, f) => ButtonState {
            callbacks: state.callbacks.insert(p, f),
            events: state.events,
        },
        ButtonStep::Click(p) => ButtonState {
            callbacks: state.callbacks,
            events: receive_transition(
                state.callbacks.dom(),
                state.events,
                (p, EventTypes::Click(Click)),
            ).0,
        },
        ButtonStep::Poll(p) => ButtonState {
            callbacks: state.callbacks,
            events: poll_transition(state.events, p).0,
        },
    }
}

/// The state after a run of steps.
pub open spec fn run_buttons<F>(state: ButtonState<F>, steps: Seq<ButtonStep<F>>) -> ButtonState<F>
    decreases steps.len(),
{
    if steps.len() == 0 {
        state
    } else {
        button_step(run_buttons(state, steps.drop_last()), steps.last())
    }
}

/// How many polls of `path` in a run reported a click.
pub open spec fn reported_polls<F>(
    state: ButtonState<F>,
    steps: Seq<ButtonStep<F>>,
    path: PathModel,
) -> nat
    decreases steps.len(),
{
    if steps.len() == 0 {
        0
    } else {
        reported_polls(state, steps.drop_last(), path) + (if is_poll_of(steps.last(), path)
            && poll_transition(run_buttons(state, steps.drop_last()).events, path).1 {
            1nat
        } else {
            0nat
        })
    }
}

/// How many clicks on `path` a run receives.
pub open spec fn received_clicks<F>(steps: Seq<ButtonStep<F>>, path: PathModel) -> nat
    decreases steps.len(),
{
    if steps.len() == 0 {
        0
    } else {
        received_clicks(steps.drop_last(), path) + (if is_click_of(steps.last(), path) {
            1nat
        } else {
            0nat
        })
    }
}

/// 1 when a click on `path` waits to be polled, else 0.
pub open spec fn waiting(events: Map<PathModel, EventTypes>, path: PathModel) -> nat {
    if events.dom().contains(path) {
        1
    } else {
        0
    }
}

/// Over any run, polls of a button never report more clicks than the button received:
/// every reported click was received, or was waiting when the run began, and a click
/// still waiting at the end has not been reported.
pub proof fn law_polls_never_outnumber_clicks<F>(
    state: ButtonState<F>,
    steps: Seq<ButtonStep<F>>,
    path: PathModel,
)
    ensures
        reported_polls(state, steps, path) + waiting(run_buttons(state, steps).events, path)
            <= received_clicks(steps, path) + waiting(state.events, path),
        !state.events.dom().contains(path) ==> reported_polls(state, steps, path)
            <= received_clicks(steps, path),
    decreases steps.len(),
{
    if steps.len() > 0 {
        law_polls_never_outnumber_clicks(state, steps.drop_last(), path);
    }
}

/// Once a callback is registered for a button, it stays registered through any run that
/// does not register that button again, and every click on the button in that run fires it.
pub proof fn law_callback_fires_on_every_later_click<F>(
    state: ButtonState<F>,
    steps: Seq<ButtonStep<F>>,
    path: PathModel,
)
    requires
        state.callbacks.dom().contains(path),
        forall|i: int| 0 <= i < steps.len() ==> !is_register_of(#[trigger] steps[i], path),
    ensures
        forall|k: int|
            #![trigger steps.take(k)]
            0 <= k <= steps.len() ==> {
                let before = run_buttons(state, steps.take(k));
                &&& before.callbacks.dom().contains(path)
                &&& before.callbacks[path] == state.callbacks[path]
                &&& receive_transition(
                    before.callbacks.dom(),
                    before.events,
                    (path, EventTypes::Click(Click)),
                ).1
            },
{
    assert forall|k: int| #![trigger steps.take(k)] 0 <= k <= steps.len() implies {
        let before = run_buttons(state, steps.take(k));
        &&& before.callbacks.dom().contains(path)
        &&& before.callbacks[path] == state.callbacks[path]
    } by {
        lemma_callback_kept(state, steps.take(k), path);
    }
}

proof fn lemma_callback_kept<F>(state: ButtonState<F>, steps: Seq<ButtonStep<F>>, path: PathModel)
    requires
        state.callbacks.dom().contains(path),
        forall|i: int| 0 <= i < steps.len() ==> !is_register_of(#[trigger] steps[i], path),
    ensures
        run_buttons(state, steps).callbacks.dom().contains(path),
        run_buttons(state, steps).callbacks[path] == state.callbacks[path],
    decreases steps.len(),
{
    if steps.len() > 0 {
        let rest = steps.drop_last();
        assert forall|i: int| 0 <= i < rest.len() implies !is_register_of(#[trigger] rest[i], path) by {
            assert(rest[i] == steps[i]);
        }
        lemma_callback_kept(state, rest, path);
        assert(!is_register_of(steps[steps.len() - 1], path));
    }
}

/// A button that has no click waiting reports no click, on any number of polls, until it
/// is clicked again; in particular a poll right after a poll reports nothing.
pub proof fn law_no_report_without_click<F>(
    state: ButtonState<F>,
    steps: Seq<ButtonStep<F>>,
    path: PathModel,
)
    requires
        !state.events.dom().contains(path),
        forall|i: int| 0 <= i < steps.len() ==> !is_click_of(#[trigger] steps[i], path),
    ensures
        reported_polls(state, steps, path) == 0,
        !run_buttons(state, steps).events.dom().contains(path),
    decreases steps.len(),
{
    if steps.len() > 0 {
        let rest = steps.drop_last();
        assert forall|i: int| 0 <= i < rest.len() implies !is_click_of(#[trigger] rest[i], path) by {
            assert(rest[i] == steps[i]);
        }
        law_no_report_without_click(state, rest, path);
        assert(!is_click_of(steps[steps.len() - 1], path));
    }
}

/// A click waits for the button's next poll: through any run without a poll of that
/// button it stays, whatever else is clicked, polled or registered, and the next poll
/// reports it.
pub proof fn law_click_waits_for_next_poll<F>(
    state: ButtonState<F>,
    steps: Seq<ButtonStep<F>>,
    path: PathModel,
)
    requires
        state.events.dom().contains(path),
        forall|i: int| 0 <= i < steps.len() ==> !is_poll_of(#[trigger] steps[i], path),
    ensures
        run_buttons(state, steps).events.dom().contains(path),
        poll_transition(run_buttons(state, steps).events, path).1,
    decreases steps.len(),
{
    if steps.len() > 0 {
        let rest = steps.drop_last();
        assert forall|i: int| 0 <= i < rest.len() implies !is_poll_of(#[trigger] rest[i], path) by {
            assert(rest[i] == steps[i]);
        }
        law_click_waits_for_next_poll(state, rest, path);
        assert(!is_poll_of(steps[steps.len() - 1], path));
    }
}

/// One step on the port range: an attempt to set it (`set_port_range`), or a use of it
/// (`get_or_init_default`, as serving the page and binding the websocket do).
pub enum PortStep {
    SetRange((u16, u16)),
    Use,
}

/// The port range setting after a run of steps.
pub open spec fn run_ports(setting: Option<(u16, u16)>, steps: Seq<PortStep>) -> Option<(u16, u16)>
    decreases steps.len(),
{
    if steps.len() == 0 {
        setting
    } else {
        let before = run_ports(setting, steps.drop_last());
        match steps.last() {
            PortStep::SetRange(range) => set_transition(before, range).0,
            PortStep::Use => use_transition(before).0,
        }
    }
}

proof fn lemma_run_ports_append(setting: Option<(u16, u16)>, a: Seq<PortStep>, b: Seq<PortStep>)
    ensures
        run_ports(setting, a + b) == run_ports(run_ports(setting, a), b),
    decreases b.len(),
{
    if b.len() > 0 {
        lemma_run_ports_append(setting, a, b.drop_last());
        assert((a + b).drop_last() =~= a + b.drop_last());
        assert((a + b).last() == b.last());
    }
}

/// Once the port range is set, it is read-only: after every part of any run of attempts
/// to set it and uses of it, it is still that range, every attempt is refused with it,
/// and every use reads it.
pub proof fn law_port_range_read_only(range: (u16, u16), steps: Seq<PortStep>)
    ensures
        forall|k: int|
            #![trigger steps.take(k)]
            0 <= k <= steps.len() ==> {
                let before = run_ports(Some(range), steps.take(k));
                &&& before == Some(range)
                &&& use_transition(before).1 == range
                &&& forall|other: (u16, u16)|
                    #[trigger] set_transition(before, other).1 == Err::<(), (u16, u16)>(range)
            },
{
    assert forall|k: int| #![trigger steps.take(k)] 0 <= k <= steps.len() implies run_ports(
        Some(range),
        steps.take(k),
    ) == Some(range) by {
        lemma_read_only(range, steps.take(k));
    }
}

proof fn lemma_read_only(range: (u16, u16), steps: Seq<PortStep>)
    ensures
        run_ports(Some(range), steps) == Some(range),
    decreases steps.len(),
{
    if steps.len() > 0 {
        lemma_read_only(range, steps.drop_last());
    }
}

/// Every use of the port range in a run reads the same range, whatever attempts to set
/// it come between: the range written into the page and the range the websocket binds in
/// agree, in either order.
pub proof fn law_all_uses_agree(setting: Option<(u16, u16)>, steps: Seq<PortStep>, i: int, j: int)
    requires
        0 <= i < j < steps.len(),
        steps[i] is Use,
        steps[j] is Use,
    ensures
        use_transition(run_ports(setting, steps.take(i))).1 == use_transition(
            run_ports(setting, steps.take(j)),
        ).1,
{
    let first = steps.take(i + 1);
    let between = steps.subrange(i + 1, j);
    assert(first.drop_last() =~= steps.take(i));
    assert(first.last() == steps[i]);
    let used = use_transition(run_ports(setting, steps.take(i))).1;
    assert(run_ports(setting, first) == Some(used));
    assert(steps.take(j) =~= first + between);
    lemma_run_ports_append(setting, first, between);
    lemma_read_only(used, between);
}

/// A decimal digit character, '0' to '9'.
pub open spec fn is_digit(c: char) -> bool {
    48 <= c as int <= 57
}

/// The number that a string of digits reads as, in base 10, each digit valued as its
/// character code minus 48.
pub open spec fn digits_value(s: Seq<char>) -> int
    decreases s.len(),
{
    if s.len() == 0 {
        0
    } else {
        digits_value(s.drop_last()) * 10 + (s.last() as int - 48)
    }
}

/// A numeral: digits only, at least one, and no leading zero unless it is the only digit.
pub open spec fn is_numeral(s: Seq<char>) -> bool {
    &&& s.len() > 0
    &&& forall|j: int| 0 <= j < s.len() ==> is_digit(#[trigger] s[j])
    &&& s.len() > 1 ==> s[0] != '0'
}

/// The decimal text of every number is a numeral that reads back as that number.
pub proof fn law_decimal_reads_back(n: nat)
    ensures
        is_numeral(decimal(n)),
        digits_value(decimal(n)) == n,
    decreases n,
{
    let t = decimal(n);
    if n < 10 {
        assert(digit_char(n) as int == n + 48);
        assert(t.drop_last() =~= Seq::<char>::empty());
        assert(digits_value(t) == digits_value(t.drop_last()) * 10 + (t.last() as int - 48));
    } else {
        let high = (n / 10) as nat;
        let low = (n % 10) as nat;
        law_decimal_reads_back(high);
        assert(digit_char(low) as int == low + 48);
        assert(t == decimal(high).push(digit_char(low)));
        assert(t.drop_last() =~= decimal(high));
        assert(t.last() == digit_char(low));
        assert(digits_value(t) == digits_value(decimal(high)) * 10 + low);
        assert(n == high * 10 + low);
        assert forall|j: int| 0 <= j < t.len() implies is_digit(#[trigger] t[j]) by {
            if j < t.len() - 1 {
                assert(t[j] == decimal(high)[j]);
            }
        }
        assert(t[0] == decimal(high)[0]);
        if decimal(high).len() == 1 {
            assert(high < 10) by {
                if high >= 10 {
                    law_decimal_long((n / 10) as nat);
                }
            }
            assert(decimal(high)[0] == digit_char(high));
            assert(digit_char(high) as int == high + 48);
        }
    }
}

proof fn law_decimal_long(n: nat)
    requires
        n >= 10,
    ensures
        decimal(n).len() > 1,
{
    let high = (n / 10) as nat;
    assert(decimal(n) == decimal(high).push(digit_char((n % 10) as nat)));
    assert(decimal(high).len() >= 1);
}

/// The text of every port range holds exactly one '-', every other character a digit;
/// the numerals before and after it read back as the two ends of the range, also when
/// the two ends are equal.
pub proof fn law_port_range_text_reads_back(range: (u16, u16))
    ensures
        ({
            let t = port_range_model(range);
            exists|k: int|
                #![trigger t[k]]
                {
                    &&& 0 < k < t.len() - 1
                    &&& t[k] == '-'
                    &&& forall|j: int| 0 <= j < t.len() && j != k ==> is_digit(#[trigger] t[j])
                    &&& is_numeral(t.subrange(0, k))
                    &&& is_numeral(t.subrange(k + 1, t.len() as int))
                    &&& digits_value(t.subrange(0, k)) == range.0
                    &&& digits_value(t.subrange(k + 1, t.len() as int)) == range.1
                }
        }),
{
    let a = decimal(range.0 as nat);
    let b = decimal(range.1 as nat);
    law_decimal_reads_back(range.0 as nat);
    law_decimal_reads_back(range.1 as nat);
    let t = port_range_model(range);
    let k = a.len() as int;
    assert(t.subrange(0, k) =~= a);
    assert(t.subrange(k + 1, t.len() as int) =~= b);
    assert(t[k] == '-');
    assert forall|j: int| 0 <= j < t.len() && j != k implies is_digit(#[trigger] t[j]) by {
        if j < k {
            assert(t[j] == a[j]);
        } else {
            assert(t[j] == b[j - k - 1]);
        }
    }
}

/// The local address of every port is "127.0.0.1:" followed by a numeral that reads back
/// as the port.
pub proof fn law_server_address_reads_back(port: u16)
    ensures
        ({
            let t = server_address_model(port);
            &&& t.len() > 10
            &&& t.subrange(0, 10) == seq!['1', '2', '7', '.', '0', '.', '0', '.', '1', ':']
            &&& is_numeral(t.subrange(10, t.len() as int))
            &&& digits_value(t.subrange(10, t.len() as int)) == port
        }),
{
    let t = server_address_model(port);
    law_decimal_reads_back(port as nat);
    assert(t.subrange(0, 10) =~= seq!['1', '2', '7', '.', '0', '.', '0', '.', '1', ':']);
    assert(t.subrange(10, t.len() as int) =~= decimal(port as nat));
}

/// The whole port marker stands in `s` at position `j`, character by character.
pub open spec fn marker_stands_at(s: Seq<char>, j: int) -> bool {
    &&& 0 <= j
    &&& j + PORT_MARKER@.len() <= s.len()
    &&& forall|k: int| 0 <= k < PORT_MARKER@.len() ==> s[j + k] == #[trigger] PORT_MARKER@[k]
}

proof fn lemma_occurs_iff_stands(s: Seq<char>, j: int)
    ensures
        occurs_at(s, PORT_MARKER@, j) <==> marker_stands_at(s, j),
{
    let m = PORT_MARKER@.len() as int;
    if occurs_at(s, PORT_MARKER@, j) {
        assert forall|k: int| 0 <= k < m implies s[j + k] == #[trigger] PORT_MARKER@[k] by {
            assert(s.subrange(j, j + m)[k] == s[j + k]);
        }
    }
    if marker_stands_at(s, j) {
        assert(s.subrange(j, j + m) =~= PORT_MARKER@);
    }
}

/// Serving writes the port range into the page right after the last place where the whole
/// port marker stands: the page returned is the original page up to and including that
/// marker, then the range text, then the rest of the original page; no whole marker stands
/// further on; and no page is returned only when the whole marker stands nowhere.
pub proof fn law_range_written_after_last_marker(
    html: Seq<char>,
    range: (u16, u16),
    page: Option<Seq<char>>,
)
    requires
        page_names_range(html, range, page),
    ensures
        page is None ==> forall|j: int| !#[trigger] marker_stands_at(html, j),
        page matches Some(out) ==> exists|i: int|
            #![trigger marker_stands_at(html, i)]
            {
                let end = i + PORT_MARKER@.len();
                let text = port_range_model(range);
                &&& marker_stands_at(html, i)
                &&& forall|j: int| i < j ==> !#[trigger] marker_stands_at(html, j)
                &&& out.len() == html.len() + text.len()
                &&& marker_stands_at(out, i)
                &&& out.subrange(0, end) == html.subrange(0, end)
                &&& out.subrange(end, end + text.len()) == text
                &&& out.subrange(end + text.len(), out.len() as int) == html.subrange(
                    end,
                    html.len() as int,
                )
            },
{
    let m = PORT_MARKER@.len() as int;
    match page {
        None => {
            assert forall|j: int| !#[trigger] marker_stands_at(html, j) by {
                lemma_occurs_iff_stands(html, j);
            }
        },
        Some(out) => {
            let text = port_range_model(range);
            let i = choose|i: int|
                is_last_occurrence(html, PORT_MARKER@, i) && out == #[trigger] inserted_after_last(
                    html,
                    PORT_MARKER@,
                    text,
                    i,
                );
            let end = i + m;
            lemma_occurs_iff_stands(html, i);
            assert forall|j: int| i < j implies !#[trigger] marker_stands_at(html, j) by {
                lemma_occurs_iff_stands(html, j);
            }
            assert(out.subrange(0, end) =~= html.subrange(0, end));
            assert(out.subrange(end, end + text.len()) =~= text);
            assert(out.subrange(end + text.len(), out.len() as int) =~= html.subrange(
                end,
                html.len() as int,
            ));
            assert forall|k: int| 0 <= k < m implies out[i + k] == #[trigger] PORT_MARKER@[k] by {
                assert(out[i + k] == html[i + k]);
            }
        },
    }
}

} // verus!
