//! What the bot answers: dialogue state, keyboards, callbacks and replies.
use vstd::prelude::*;
use crate::snapshot::{ProposalResponse, proposal_url, proposal_url_spec};
use crate::text::{before_first, concatenate, contains, decimal, has_substring, i64_to_decimal, join, seq_join, u64_to_decimal, views, first_part, has_prefix, same_text, split_once, split_once_spec, starts_with};

verus! {

/// The state of a chat's dialogue with the bot.
#[derive(Clone, Copy, PartialEq, Eq, Structural, Debug)]
pub enum State {
    /// No dialogue is going on.
    Idle,
    /// The bot waits for the ape address to link.
    ReceiveApeAddress,
}

impl Default for State {
    fn default() -> (r: State)
        ensures
            r == State::Idle,
    {
        State::Idle
    }
}

/// A button of an inline keyboard: its label and the data its press sends back.
pub struct KeyboardButton {
    pub label: String,
    pub data: String,
}

/// The data sent back by the button for `action` on a keyboard of kind `data_type`.
pub open spec fn button_data(data_type: Seq<char>, action: Seq<char>) -> Seq<char> {
    data_type + ":"@ + action
}

/// Number of buttons in row `i` of a keyboard of `n` options.
pub open spec fn row_width(n: int, i: int) -> int {
    if n - 3 * i >= 3 { 3 } else { n - 3 * i }
}

/// `kb` lays the options out in rows of three, in order, the last row holding
/// what remains; each button is labelled with its option and sends
/// `data_type:option` back.
pub open spec fn is_keyboard(kb: Seq<Vec<KeyboardButton>>, data_type: Seq<char>, options: Seq<Seq<char>>) -> bool {
    &&& kb.len() == (options.len() + 2) / 3
    &&& forall|i: int| 0 <= i < kb.len() ==> #[trigger] kb[i]@.len() == row_width(options.len() as int, i)
    &&& forall|i: int, j: int|
        0 <= i < kb.len() && 0 <= j < kb[i]@.len() ==> {
            &&& (#[trigger] kb[i]@[j]).label@ == options[3 * i + j]
            &&& kb[i]@[j].data@ == button_data(data_type, options[3 * i + j])
        }
}

/// The button for one action.
pub fn keyboard_button(data_type: &str, action: &str) -> (r: KeyboardButton)
    ensures
        r.label@ == action@,
        r.data@ == button_data(data_type@, action@),
{
    let mut data = concatenate(data_type, ":");
    data.append(action);
    KeyboardButton { label: String::from_str(action), data }
}

/// The inline keyboard offering `options`, three per row.
pub fn make_keyboard(data_type: &str, options: &Vec<String>) -> (r: Vec<Vec<KeyboardButton>>)
    ensures
        is_keyboard(r@, data_type@, crate::text::views(options@)),
{
    let ghost opts = crate::text::views(options@);
    let n = options.len();
    let mut rows: Vec<Vec<KeyboardButton>> = Vec::new();
    let mut start: usize = 0;
    while start < n
        invariant
            n == options@.len(),
            opts == crate::text::views(options@),
            start <= n,
            start == n || start == 3 * rows@.len(),
            rows@.len() == (start + 2) / 3,
            forall|i: int| 0 <= i < rows@.len() ==> #[trigger] rows@[i]@.len() == row_width(start as int, i),
            forall|i: int, j: int|
                0 <= i < rows@.len() && 0 <= j < rows@[i]@.len() ==> {
                    &&& (#[trigger] rows@[i]@[j]).label@ == opts[3 * i + j]
                    &&& rows@[i]@[j].data@ == button_data(data_type@, opts[3 * i + j])
                },
        decreases n - start,
    {
        let end = if n - start > 3 { start + 3 } else { n };
        let mut row: Vec<KeyboardButton> = Vec::new();
        let mut k: usize = start;
        while k < end
            invariant
                start <= k <= end <= n,
                n == options@.len(),
                opts == crate::text::views(options@),
                row@.len() == k - start,
                forall|j: int| 0 <= j < row@.len() ==> {
                    &&& (#[trigger] row@[j]).label@ == opts[start + j]
                    &&& row@[j].data@ == button_data(data_type@, opts[start + j])
                },
            decreases end - k,
        {
            row.push(keyboard_button(data_type, options[k].as_str()));
            k = k + 1;
        }
        let ghost old_rows = rows@;
        rows.push(row);
        assert forall|i: int| 0 <= i < rows@.len() implies #[trigger] rows@[i]@.len() == row_width(end as int, i) by {
            if i < old_rows.len() {
                assert(rows@[i] == old_rows[i]);
            }
        }
        assert forall|i: int, j: int|
            0 <= i < rows@.len() && 0 <= j < rows@[i]@.len() implies {
                &&& (#[trigger] rows@[i]@[j]).label@ == opts[3 * i + j]
                &&& rows@[i]@[j].data@ == button_data(data_type@, opts[3 * i + j])
            } by {
            if i < old_rows.len() {
                assert(rows@[i] == old_rows[i]);
            }
        }
        start = end;
    }
    rows
}


/// A change to a chat's subscriptions.
pub enum StoreOp {
    Keep,
    Subscribe(String),
    Unsubscribe(String),
}

/// The view of a `StoreOp`.
pub enum StoreOpView {
    Keep,
    Subscribe(Seq<char>),
    Unsubscribe(Seq<char>),
}

impl View for StoreOp {
    type V = StoreOpView;

    open spec fn view(&self) -> StoreOpView {
        match self {
            StoreOp::Keep => StoreOpView::Keep,
            StoreOp::Subscribe(e) => StoreOpView::Subscribe(e@),
            StoreOp::Unsubscribe(e) => StoreOpView::Unsubscribe(e@),
        }
    }
}

/// What to do when a keyboard button is pressed: nothing (no data, or data without
/// ':'), or change the subscriptions, acknowledge the press, and then edit the
/// keyboard's message into `text`, or delete that message when there is no text.
pub enum CallbackPlan {
    Ignore,
    Answer { store: StoreOp, text: Option<String> },
}

/// The view of a `CallbackPlan`.
pub enum CallbackPlanView {
    Ignore,
    Answer { store: StoreOpView, text: Option<Seq<char>> },
}

impl View for CallbackPlan {
    type V = CallbackPlanView;

    open spec fn view(&self) -> CallbackPlanView {
        match self {
            CallbackPlan::Ignore => CallbackPlanView::Ignore,
            CallbackPlan::Answer { store, text } => CallbackPlanView::Answer {
                store: store@,
                text: match text {
                    Some(t) => Some(t@),
                    None => None,
                },
            },
        }
    }
}

/// The confirmation of a new subscription to `event`.
pub open spec fn subscribed_reply_spec(event: Seq<char>) -> Seq<char> {
    if event == "price"@ {
        "Subscribed to "@ + event
            + "! You will receive a message when there are significant changes in the price of apecoin"@
    } else if event == "proposal"@ {
        "Subscribed to "@ + event + "! You will receive a message when a new proposal is listed"@
    } else if event == "news"@ {
        "Subscribed to "@ + event
            + "! You will receive a message when some relevant information about apecoin is published"@
    } else {
        "Subscribed to "@ + event + "!"@
    }
}

/// The plan for the data sent back by a pressed button, read as `command:value`.
pub open spec fn callback_plan_spec(data: Option<Seq<char>>) -> CallbackPlanView {
    match data {
        None => CallbackPlanView::Ignore,
        Some(d) => match split_once_spec(d, ':') {
            None => CallbackPlanView::Ignore,
            Some((command, value)) => if command == "sub"@ {
                if value == "cancel"@ {
                    CallbackPlanView::Answer { store: StoreOpView::Keep, text: None }
                } else {
                    CallbackPlanView::Answer {
                        store: StoreOpView::Subscribe(value),
                        text: Some(subscribed_reply_spec(value)),
                    }
                }
            } else if command == "unsub"@ {
                if value == "cancel"@ {
                    CallbackPlanView::Answer { store: StoreOpView::Keep, text: None }
                } else {
                    CallbackPlanView::Answer {
                        store: StoreOpView::Unsubscribe(value),
                        text: Some("Unsubscribed from "@ + value),
                    }
                }
            } else {
                CallbackPlanView::Answer {
                    store: StoreOpView::Keep,
                    text: Some("Sorry, could not understand you"@),
                }
            },
        },
    }
}

/// The confirmation of a new subscription to `event`.
pub fn subscribed_reply(event: &str) -> (r: String)
    ensures
        r@ == subscribed_reply_spec(event@),
{
    let mut s = concatenate("Subscribed to ", event);
    if same_text(event, "price") {
        s.append("! You will receive a message when there are significant changes in the price of apecoin");
    } else if same_text(event, "proposal") {
        s.append("! You will receive a message when a new proposal is listed");
    } else if same_text(event, "news") {
        s.append("! You will receive a message when some relevant information about apecoin is published");
    } else {
        s.append("!");
    }
    s
}

/// What to do with the data of a pressed keyboard button.
pub fn plan_callback(data: Option<&str>) -> (r: CallbackPlan)
    ensures
        r@ == callback_plan_spec(
            match data {
                Some(d) => Some(d@),
                None => None,
            },
        ),
{
    match data {
        None => CallbackPlan::Ignore,
        Some(d) => match split_once(d, ':') {
            None => CallbackPlan::Ignore,
            Some((command, value)) => {
                if same_text(command, "sub") {
                    if same_text(value, "cancel") {
                        CallbackPlan::Answer { store: StoreOp::Keep, text: None }
                    } else {
                        CallbackPlan::Answer {
                            store: StoreOp::Subscribe(String::from_str(value)),
                            text: Some(subscribed_reply(value)),
                        }
                    }
                } else if same_text(command, "unsub") {
                    if same_text(value, "cancel") {
                        CallbackPlan::Answer { store: StoreOp::Keep, text: None }
                    } else {
                        CallbackPlan::Answer {
                            store: StoreOp::Unsubscribe(String::from_str(value)),
                            text: Some(concatenate("Unsubscribed from ", value)),
                        }
                    }
                } else {
                    CallbackPlan::Answer {
                        store: StoreOp::Keep,
                        text: Some(String::from_str("Sorry, could not understand you")),
                    }
                }
            },
        },
    }
}


/// The lowercase form of a text, as `str::to_lowercase` gives it.
pub uninterp spec fn lowercase_of(s: Seq<char>) -> Seq<char>;

/// Calls `str::to_lowercase` (Unicode's lowercase mapping). The contract only names
/// the result (`lowercase_of`); the mapping itself is left to std.
#[verifier::external_body]
fn lowercase(s: &str) -> (r: String)
    ensures
        r@ == lowercase_of(s@),
{
    s.to_lowercase()
}

/// What happens to the chat's linked address.
pub enum LinkAction {
    Nothing,
    /// Link this address.
    Link(String),
    /// Forget the linked address.
    Unlink,
}

/// The view of a `LinkAction`.
pub enum LinkActionView {
    Nothing,
    Link(Seq<char>),
    Unlink,
}

/// The bot's answer to a message while it waits for an address: the change to the
/// linked address, then the reply (sent as HTML when `html`), then whether the
/// dialogue ends.
pub struct AddressPlan {
    pub action: LinkAction,
    pub reply: Option<String>,
    pub html: bool,
    pub exit: bool,
}

/// The view of an `AddressPlan`.
pub struct AddressPlanView {
    pub action: LinkActionView,
    pub reply: Option<Seq<char>>,
    pub html: bool,
    pub exit: bool,
}

impl View for AddressPlan {
    type V = AddressPlanView;

    open spec fn view(&self) -> AddressPlanView {
        AddressPlanView {
            action: match self.action {
                LinkAction::Nothing => LinkActionView::Nothing,
                LinkAction::Link(a) => LinkActionView::Link(a@),
                LinkAction::Unlink => LinkActionView::Unlink,
            },
            reply: match self.reply {
                Some(t) => Some(t@),
                None => None,
            },
            html: self.html,
            exit: self.exit,
        }
    }
}

/// The answer to a message while waiting for an address: `text` is the message's
/// text, if any, and `lowered` its lowercase form. An address starts with "0x" and
/// ends at the first space; "cancel" ends the dialogue, "none" unlinks (both in
/// any case); anything else asks again.
pub open spec fn address_plan_spec(text: Option<Seq<char>>, lowered: Seq<char>) -> AddressPlanView {
    match text {
        None => AddressPlanView {
            action: LinkActionView::Nothing,
            reply: Some("Send me plain text."@),
            html: false,
            exit: false,
        },
        Some(t) => if has_prefix(t, "0x"@) {
            AddressPlanView {
                action: LinkActionView::Link(before_first(t, ' ')),
                reply: Some("Linked address <b>"@ + t + "</b>"@),
                html: true,
                exit: true,
            }
        } else if has_prefix(lowered, "cancel"@) {
            AddressPlanView { action: LinkActionView::Nothing, reply: None, html: false, exit: true }
        } else if has_prefix(lowered, "none"@) {
            AddressPlanView {
                action: LinkActionView::Unlink,
                reply: Some("Address unlinked"@),
                html: false,
                exit: true,
            }
        } else {
            AddressPlanView {
                action: LinkActionView::Nothing,
                reply: Some(
                    "The address should starts with 0x. You can also write <b>cancel</b> to cancel or <b>none</b> to unlink"@,
                ),
                html: true,
                exit: false,
            }
        },
    }
}

/// The view of an optional text.
pub open spec fn opt_view(t: Option<&str>) -> Option<Seq<char>> {
    match t {
        Some(s) => Some(s@),
        None => None,
    }
}

/// The answer to a message while waiting for an address, given the lowercase form
/// of its text.
pub fn address_plan(text: Option<&str>, lowered: &str) -> (r: AddressPlan)
    ensures
        r@ == address_plan_spec(opt_view(text), lowered@),
{
    match text {
        None => AddressPlan {
            action: LinkAction::Nothing,
            reply: Some(String::from_str("Send me plain text.")),
            html: false,
            exit: false,
        },
        Some(t) => {
            if starts_with(t, "0x") {
                let address = String::from_str(first_part(t, ' '));
                let mut reply = concatenate("Linked address <b>", t);
                reply.append("</b>");
                AddressPlan { action: LinkAction::Link(address), reply: Some(reply), html: true, exit: true }
            } else if starts_with(lowered, "cancel") {
                AddressPlan { action: LinkAction::Nothing, reply: None, html: false, exit: true }
            } else if starts_with(lowered, "none") {
                AddressPlan {
                    action: LinkAction::Unlink,
                    reply: Some(String::from_str("Address unlinked")),
                    html: false,
                    exit: true,
                }
            } else {
                AddressPlan {
                    action: LinkAction::Nothing,
                    reply: Some(
                        String::from_str(
                            "The address should starts with 0x. You can also write <b>cancel</b> to cancel or <b>none</b> to unlink",
                        ),
                    ),
                    html: true,
                    exit: false,
                }
            }
        },
    }
}

/// The answer to a message while waiting for an address.
pub fn plan_address_reply(text: Option<&str>) -> (r: AddressPlan)
    ensures
        match text {
            Some(t) => r@ == address_plan_spec(Some(t@), lowercase_of(t@)),
            None => r@ == address_plan_spec(None, Seq::empty()),
        },
{
    match text {
        Some(t) => {
            if starts_with(t, "0x") {
                address_plan(text, "")
            } else {
                let lowered = lowercase(t);
                address_plan(text, lowered.as_str())
            }
        },
        None => address_plan(None, ""),
    }
}

/// The reply listing a chat's subscriptions.
pub open spec fn subscribed_text_spec(subs: Seq<Seq<char>>) -> Seq<char> {
    if subs.len() == 0 {
        "Not subscribed to anything..."@
    } else {
        "You are subscribed to: "@ + seq_join(subs, ", "@)
    }
}

/// The reply listing a chat's subscriptions.
pub fn subscribed_text(subs: &Vec<String>) -> (r: String)
    ensures
        r@ == subscribed_text_spec(views(subs@)),
{
    if subs.len() == 0 {
        String::from_str("Not subscribed to anything...")
    } else {
        let listed = join(subs, ", ");
        concatenate("You are subscribed to: ", listed.as_str())
    }
}

/// The events a chat can subscribe to, with "cancel" last.
pub open spec fn subscribe_options() -> Seq<Seq<char>> {
    seq!["price"@, "proposal"@, "news"@, "cancel"@]
}

/// The keyboard offering the events to subscribe to.
pub fn subscribe_keyboard() -> (r: Vec<Vec<KeyboardButton>>)
    ensures
        is_keyboard(r@, "sub"@, subscribe_options()),
{
    let mut options: Vec<String> = Vec::new();
    options.push(String::from_str("price"));
    options.push(String::from_str("proposal"));
    options.push(String::from_str("news"));
    options.push(String::from_str("cancel"));
    assert(views(options@) =~= subscribe_options());
    make_keyboard("sub", &options)
}

/// The keyboard offering a chat's subscriptions to cancel, with "cancel" last; none
/// when the chat has no subscription.
pub fn unsubscribe_keyboard(subs: &Vec<String>) -> (r: Option<Vec<Vec<KeyboardButton>>>)
    ensures
        subs@.len() == 0 <==> r is None,
        r matches Some(kb) ==> is_keyboard(kb@, "unsub"@, views(subs@).push("cancel"@)),
{
    if subs.len() == 0 {
        None
    } else {
        let mut options = subs.clone();
        options.push(String::from_str("cancel"));
        assert(views(options@) =~= views(subs@).push("cancel"@));
        Some(make_keyboard("unsub", &options))
    }
}

/// Whole units of `unit` seconds in `secs`, rounded toward zero.
pub open spec fn whole_units(secs: int, unit: int) -> int {
    if secs >= 0 {
        secs / unit
    } else {
        -((-secs) / unit)
    }
}

fn whole_units_exec(secs: i64, unit: u64) -> (r: i64)
    requires
        unit >= 1,
    ensures
        r == whole_units(secs as int, unit as int),
{
    if secs >= 0 {
        ((secs as u64) / unit) as i64
    } else {
        let magnitude: u64 = ((-(secs + 1)) as u64) + 1;
        let q = magnitude / unit;
        assert(q <= magnitude);
        if q == 0 {
            0
        } else {
            -(((q - 1) as i64)) - 1
        }
    }
}

/// How long until a vote ends, given the seconds left: whole days when there is at
/// least one, else whole hours when there is at least one, else whole minutes.
pub open spec fn remaining_spec(secs: int) -> Seq<char> {
    if whole_units(secs, 86400) > 0 {
        decimal(whole_units(secs, 86400)) + " days"@
    } else if whole_units(secs, 3600) > 0 {
        decimal(whole_units(secs, 3600)) + " hours"@
    } else {
        decimal(whole_units(secs, 60)) + " minutes"@
    }
}

/// How long until a vote ends, given the seconds left.
pub fn remaining_text(secs: i64) -> (r: String)
    ensures
        r@ == remaining_spec(secs as int),
{
    let days = whole_units_exec(secs, 86400);
    if days > 0 {
        let mut s = i64_to_decimal(days);
        s.append(" days");
        return s;
    }
    let hours = whole_units_exec(secs, 3600);
    if hours > 0 {
        let mut s = i64_to_decimal(hours);
        s.append(" hours");
        return s;
    }
    let minutes = whole_units_exec(secs, 60);
    let mut s = i64_to_decimal(minutes);
    s.append(" minutes");
    s
}

/// The line that presents a proposal: a link to it and the time left.
pub open spec fn proposal_line_spec(id: Seq<char>, title: Seq<char>, secs: int) -> Seq<char> {
    "<a href=\""@ + proposal_url_spec(id) + "\">"@ + title + "</a> ends in <b>"@ + remaining_spec(secs)
        + "</b> "@
}

/// The line that presents a proposal whose vote ends in `secs` seconds.
pub fn proposal_line(p: &ProposalResponse, secs: i64) -> (r: String)
    ensures
        r@ == proposal_line_spec(p.id@, p.title@, secs as int),
{
    let url = proposal_url(p.id.as_str());
    let mut s = concatenate("<a href=\"", url.as_str());
    s.append("\">");
    s.append(p.title.as_str());
    s.append("</a> ends in <b>");
    let left = remaining_text(secs);
    s.append(left.as_str());
    s.append("</b> ");
    s
}

/// The lines of a list of proposals, `secs[i]` being the seconds left for the i-th.
pub open spec fn proposal_lines_spec(props: Seq<ProposalResponse>, secs: Seq<i64>) -> Seq<Seq<char>> {
    Seq::new(props.len(), |i: int| proposal_line_spec(props[i].id@, props[i].title@, secs[i] as int))
}

/// The message listing the proposals, one line each.
pub fn proposals_message(props: &Vec<ProposalResponse>, secs: &Vec<i64>) -> (r: String)
    requires
        props@.len() == secs@.len(),
    ensures
        r@ == seq_join(proposal_lines_spec(props@, secs@), "\n"@),
{
    let mut lines: Vec<String> = Vec::new();
    let n = props.len();
    let mut i: usize = 0;
    while i < n
        invariant
            n == props@.len(),
            n == secs@.len(),
            0 <= i <= n,
            lines@.len() == i,
            forall|j: int| 0 <= j < i ==> #[trigger] lines@[j]@ == proposal_line_spec(props@[j].id@, props@[j].title@, secs@[j] as int),
        decreases n - i,
    {
        lines.push(proposal_line(&props[i], secs[i]));
        i = i + 1;
    }
    assert(views(lines@) =~= proposal_lines_spec(props@, secs@));
    join(&lines, "\n")
}

/// A suggestion offered for an inline query: its id, title and the page it links to.
pub struct InlineArticle {
    pub id: String,
    pub title: String,
    pub url: String,
}

/// `a` suggests the proposal `p`, found at position `index` of the list.
pub open spec fn suggests(a: InlineArticle, p: ProposalResponse, index: int) -> bool {
    &&& a.id@ == decimal(index)
    &&& a.title@ == p.title@
    &&& a.url@ == proposal_url_spec(p.id@)
}

/// The positions of the proposals whose title holds `query`, in order.
pub open spec fn matching_positions(props: Seq<ProposalResponse>, query: Seq<char>) -> Seq<int>
    decreases props.len(),
{
    if props.len() == 0 {
        Seq::empty()
    } else {
        let rest = matching_positions(props.drop_last(), query);
        if has_substring(props.last().title@, query) {
            rest.push(props.len() - 1)
        } else {
            rest
        }
    }
}

/// The matching positions are exactly the positions of the proposals whose title
/// holds the query, each once, in increasing order.
pub proof fn lemma_matching_positions(props: Seq<ProposalResponse>, query: Seq<char>)
    ensures
        forall|k: int|
            0 <= k < matching_positions(props, query).len() ==> 0 <= #[trigger] matching_positions(props, query)[k]
                < props.len() && has_substring(props[matching_positions(props, query)[k]].title@, query),
        forall|k1: int, k2: int|
            0 <= k1 < k2 < matching_positions(props, query).len() ==> #[trigger] matching_positions(props, query)[k1]
                < #[trigger] matching_positions(props, query)[k2],
        forall|i: int|
            0 <= i < props.len() && has_substring(#[trigger] props[i].title@, query) ==> exists|k: int|
                0 <= k < matching_positions(props, query).len() && matching_positions(props, query)[k] == i,
    decreases props.len(),
{
    if props.len() > 0 {
        let rest = props.drop_last();
        lemma_matching_positions(rest, query);
        let mr = matching_positions(rest, query);
        let m = matching_positions(props, query);
        assert forall|k: int| 0 <= k < mr.len() implies #[trigger] m[k] == mr[k] by {}
        assert forall|i: int| 0 <= i < rest.len() implies #[trigger] rest[i] == props[i] by {}
        assert forall|i: int|
            0 <= i < props.len() && has_substring(#[trigger] props[i].title@, query) implies exists|k: int|
                0 <= k < m.len() && m[k] == i by {
            if i < rest.len() {
                assert(rest[i] == props[i]);
                assert(has_substring(rest[i].title@, query));
                let k = choose|k: int| 0 <= k < mr.len() && mr[k] == i;
                assert(m[k] == mr[k]);
            } else {
                assert(m[m.len() - 1] == i);
            }
        }
    }
}

/// The suggestions for an inline query: the proposals whose title holds the query,
/// in order, each with its position in the list as id.
pub fn inline_results(props: &Vec<ProposalResponse>, query: &str) -> (r: Vec<InlineArticle>)
    ensures
        r@.len() == matching_positions(props@, query@).len(),
        forall|k: int|
            0 <= k < r@.len() ==> suggests(
                #[trigger] r@[k],
                props@[matching_positions(props@, query@)[k]],
                matching_positions(props@, query@)[k],
            ),
{
    let mut out: Vec<InlineArticle> = Vec::new();
    let n = props.len();
    let mut i: usize = 0;
    while i < n
        invariant
            n == props@.len(),
            0 <= i <= n,
            out@.len() == matching_positions(props@.take(i as int), query@).len(),
            forall|k: int| 0 <= k < out@.len() ==> 0 <= #[trigger] matching_positions(props@.take(i as int), query@)[k] < i,
            forall|k: int|
                0 <= k < out@.len() ==> suggests(
                    #[trigger] out@[k],
                    props@[matching_positions(props@.take(i as int), query@)[k]],
                    matching_positions(props@.take(i as int), query@)[k],
                ),
        decreases n - i,
    {
        let ghost before = matching_positions(props@.take(i as int), query@);
        assert(props@.take(i + 1).drop_last() =~= props@.take(i as int));
        assert(props@.take(i + 1).last() == props@[i as int]);
        if contains(props[i].title.as_str(), query) {
            let id = u64_to_decimal(i as u64);
            out.push(InlineArticle {
                id,
                title: props[i].title.clone(),
                url: proposal_url(props[i].id.as_str()),
            });
        }
        i = i + 1;
    }
    assert(props@.take(n as int) =~= props@);
    out
}

/// Every option of a keyboard has its button: option `k` sits in row `k / 3`, at
/// place `k % 3`, labelled with the option and sending `data_type:option` back.
pub proof fn lemma_keyboard_holds_every_option(
    kb: Seq<Vec<KeyboardButton>>,
    data_type: Seq<char>,
    options: Seq<Seq<char>>,
    k: int,
)
    requires
        is_keyboard(kb, data_type, options),
        0 <= k < options.len(),
    ensures
        k / 3 < kb.len(),
        k % 3 < kb[k / 3]@.len(),
        kb[k / 3]@[k % 3].label@ == options[k],
        kb[k / 3]@[k % 3].data@ == button_data(data_type, options[k]),
{
    let i = k / 3;
    let j = k % 3;
    assert(k == 3 * i + j && 0 <= j < 3);
    assert(kb[i]@.len() == row_width(options.len() as int, i));
}

/// A message that starts with "0x" links the address it starts with (up to its
/// first space, or the whole message when it holds none), confirms the whole
/// message in bold as HTML and ends the dialogue, whatever its lowercase form.
pub proof fn lemma_address_message_links(t: Seq<char>, lowered: Seq<char>)
    requires
        t.len() >= 2,
        t[0] == '0',
        t[1] == 'x',
    ensures
        address_plan_spec(Some(t), lowered) == (AddressPlanView {
            action: LinkActionView::Link(before_first(t, ' ')),
            reply: Some("Linked address <b>"@ + t + "</b>"@),
            html: true,
            exit: true,
        }),
        (forall|i: int| 0 <= i < t.len() ==> t[i] != ' ') ==> address_plan_spec(Some(t), lowered).action
            == LinkActionView::Link(t),
{
    reveal_strlit("0x");
    assert(t.take(2) =~= "0x"@);
    crate::text::lemma_before_first_is_longest_free_prefix(t, ' ');
}

/// A message that does not start with "0x" and whose lowercase form starts with
/// "cancel" ends the dialogue and changes nothing; one whose lowercase form starts
/// with "none" (and not "cancel") unlinks the address, says so and ends the dialogue;
/// any other one is answered with the instructions and keeps the dialogue open.
pub proof fn lemma_non_address_messages(t: Seq<char>, lowered: Seq<char>)
    requires
        !has_prefix(t, "0x"@),
    ensures
        has_prefix(lowered, "cancel"@) ==> address_plan_spec(Some(t), lowered) == (AddressPlanView {
            action: LinkActionView::Nothing,
            reply: None,
            html: false,
            exit: true,
        }),
        !has_prefix(lowered, "cancel"@) && has_prefix(lowered, "none"@) ==> address_plan_spec(Some(t), lowered)
            == (AddressPlanView {
            action: LinkActionView::Unlink,
            reply: Some("Address unlinked"@),
            html: false,
            exit: true,
        }),
        !has_prefix(lowered, "cancel"@) && !has_prefix(lowered, "none"@) ==> address_plan_spec(Some(t), lowered)
            == (AddressPlanView {
            action: LinkActionView::Nothing,
            reply: Some(
                "The address should starts with 0x. You can also write <b>cancel</b> to cancel or <b>none</b> to unlink"@,
            ),
            html: true,
            exit: false,
        }),
        address_plan_spec(None, lowered) == (AddressPlanView {
            action: LinkActionView::Nothing,
            reply: Some("Send me plain text."@),
            html: false,
            exit: false,
        }),
{
}

/// The subscription list: no subscription gives "Not subscribed to anything...";
/// one subscription `a` gives "You are subscribed to: a"; and adding a subscription
/// to a non-empty list appends ", " and its name to the reply.
pub proof fn lemma_subscribed_text_lists(subs: Seq<Seq<char>>, a: Seq<char>)
    ensures
        subscribed_text_spec(Seq::empty()) == "Not subscribed to anything..."@,
        subscribed_text_spec(seq![a]) == "You are subscribed to: "@ + a,
        subs.len() > 0 ==> subscribed_text_spec(subs.push(a)) == subscribed_text_spec(subs) + ", "@ + a,
        subs.len() > 0 ==> has_prefix(subscribed_text_spec(subs), "You are subscribed to: "@),
{
    assert(seq![a].len() == 1);
    if subs.len() > 0 {
        let rest = crate::text::seq_join(subs, ", "@);
        assert(("You are subscribed to: "@ + rest).take("You are subscribed to: "@.len() as int) =~= "You are subscribed to: "@);
        assert(subs.push(a).drop_last() =~= subs);
        assert(subs.push(a).last() == a);
    }
}

/// A proposal's line links to the page named by the proposal's whole id, shows its
/// title, and tells the time left in bold.
pub proof fn lemma_proposal_line_links_full_id(id: Seq<char>, title: Seq<char>, secs: int)
    ensures
        proposal_line_spec(id, title, secs) == "<a href=\"https://snapshot.org/#/apecoin.eth/proposal/"@ + id
            + "\">"@ + title + "</a> ends in <b>"@ + remaining_spec(secs) + "</b> "@,
{
    reveal_strlit("<a href=\"");
    reveal_strlit("https://snapshot.org/#/apecoin.eth/proposal/");
    reveal_strlit("<a href=\"https://snapshot.org/#/apecoin.eth/proposal/");
    assert("<a href=\"https://snapshot.org/#/apecoin.eth/proposal/"@ =~= "<a href=\""@
        + "https://snapshot.org/#/apecoin.eth/proposal/"@);
    assert(proposal_line_spec(id, title, secs) =~= "<a href=\"https://snapshot.org/#/apecoin.eth/proposal/"@ + id
        + "\">"@ + title + "</a> ends in <b>"@ + remaining_spec(secs) + "</b> "@);
}

/// The time left is told in whole days from one day on, in whole hours from one
/// hour on, and otherwise in whole minutes (rounded toward zero, so negative once
/// the vote has ended).
pub proof fn lemma_remaining_units(secs: int)
    ensures
        secs >= 86400 ==> remaining_spec(secs) == crate::text::decimal(secs / 86400) + " days"@,
        3600 <= secs < 86400 ==> remaining_spec(secs) == crate::text::decimal(secs / 3600) + " hours"@,
        0 <= secs < 3600 ==> remaining_spec(secs) == crate::text::decimal(secs / 60) + " minutes"@,
        secs < 0 ==> remaining_spec(secs) == crate::text::decimal(-((-secs) / 60)) + " minutes"@,
{
    if secs < 0 {
        assert(whole_units(secs, 86400) <= 0);
        assert(whole_units(secs, 3600) <= 0);
    }
}

/// Button data is read as `command:value` at its first ':': data without ':' (or
/// no data) is ignored; a command other than "sub" and "unsub" changes nothing and
/// is answered "Sorry, could not understand you".
pub proof fn lemma_callback_other_data(d: Seq<char>, command: Seq<char>, value: Seq<char>)
    requires
        forall|i: int| 0 <= i < command.len() ==> command[i] != ':',
        command != "sub"@,
        command != "unsub"@,
    ensures
        callback_plan_spec(None) == CallbackPlanView::Ignore,
        (forall|i: int| 0 <= i < d.len() ==> d[i] != ':') ==> callback_plan_spec(Some(d)) == CallbackPlanView::Ignore,
        callback_plan_spec(Some(command + ":"@ + value)) == (CallbackPlanView::Answer {
            store: StoreOpView::Keep,
            text: Some("Sorry, could not understand you"@),
        }),
{
    crate::text::lemma_split_once_parts(d, ':');
    reveal_strlit(":");
    assert(":"@ =~= seq![':']);
    crate::text::lemma_split_after_prefix(command, ':', value);
}

/// The confirmation of a subscription names the event and, for the three events the
/// bot sends, says when a message will come.
pub proof fn lemma_subscribed_replies(event: Seq<char>)
    ensures
        subscribed_reply_spec("price"@)
            == "Subscribed to price! You will receive a message when there are significant changes in the price of apecoin"@,
        subscribed_reply_spec("proposal"@)
            == "Subscribed to proposal! You will receive a message when a new proposal is listed"@,
        subscribed_reply_spec("news"@)
            == "Subscribed to news! You will receive a message when some relevant information about apecoin is published"@,
        event != "price"@ && event != "proposal"@ && event != "news"@ ==> subscribed_reply_spec(event)
            == "Subscribed to "@ + event + "!"@,
{
    reveal_strlit("price");
    reveal_strlit("proposal");
    reveal_strlit("news");
    reveal_strlit("Subscribed to ");
    reveal_strlit("! You will receive a message when there are significant changes in the price of apecoin");
    reveal_strlit("Subscribed to price! You will receive a message when there are significant changes in the price of apecoin");
    reveal_strlit("! You will receive a message when a new proposal is listed");
    reveal_strlit("Subscribed to proposal! You will receive a message when a new proposal is listed");
    reveal_strlit("! You will receive a message when some relevant information about apecoin is published");
    reveal_strlit("Subscribed to news! You will receive a message when some relevant information about apecoin is published");
    assert(subscribed_reply_spec("price"@) =~= "Subscribed to price! You will receive a message when there are significant changes in the price of apecoin"@);
    assert(subscribed_reply_spec("proposal"@) =~= "Subscribed to proposal! You will receive a message when a new proposal is listed"@);
    assert(subscribed_reply_spec("news"@) =~= "Subscribed to news! You will receive a message when some relevant information about apecoin is published"@);
}

/// The subscribe keyboard offers "price", "proposal" and "news", and "cancel" last.
pub proof fn lemma_subscribe_options()
    ensures
        subscribe_options().len() == 4,
        subscribe_options()[0] == "price"@,
        subscribe_options()[1] == "proposal"@,
        subscribe_options()[2] == "news"@,
        subscribe_options()[3] == "cancel"@,
{
}

/// A press on a subscribe keyboard subscribes to exactly the pressed option (a press
/// on "cancel" only dismisses the keyboard), and a press on an unsubscribe keyboard
/// unsubscribes from exactly the pressed option, whatever text the option holds.
pub proof fn lemma_keyboard_press_round_trip(option: Seq<char>)
    ensures
        callback_plan_spec(Some(button_data("sub"@, option))) == if option == "cancel"@ {
            CallbackPlanView::Answer { store: StoreOpView::Keep, text: None }
        } else {
            CallbackPlanView::Answer {
                store: StoreOpView::Subscribe(option),
                text: Some(subscribed_reply_spec(option)),
            }
        },
        callback_plan_spec(Some(button_data("unsub"@, option))) == if option == "cancel"@ {
            CallbackPlanView::Answer { store: StoreOpView::Keep, text: None }
        } else {
            CallbackPlanView::Answer {
                store: StoreOpView::Unsubscribe(option),
                text: Some("Unsubscribed from "@ + option),
            }
        },
{
    reveal_strlit("sub");
    reveal_strlit("unsub");
    reveal_strlit(":");
    assert(":"@ =~= seq![':']);
    crate::text::lemma_split_after_prefix("sub"@, ':', option);
    crate::text::lemma_split_after_prefix("unsub"@, ':', option);
    assert(button_data("sub"@, option) =~= "sub"@ + seq![':'] + option);
    assert(button_data("unsub"@, option) =~= "unsub"@ + seq![':'] + option);
}


/// Any button of a subscribe keyboard, when pressed, subscribes to the event it is
/// labelled with; the "cancel" button only dismisses the keyboard.
pub proof fn lemma_subscribe_keyboard_presses(
    kb: Seq<Vec<KeyboardButton>>,
    options: Seq<Seq<char>>,
    i: int,
    j: int,
)
    requires
        is_keyboard(kb, "sub"@, options),
        0 <= i < kb.len(),
        0 <= j < kb[i]@.len(),
    ensures
        callback_plan_spec(Some(kb[i]@[j].data@)) == if kb[i]@[j].label@ == "cancel"@ {
            CallbackPlanView::Answer { store: StoreOpView::Keep, text: None }
        } else {
            CallbackPlanView::Answer {
                store: StoreOpView::Subscribe(kb[i]@[j].label@),
                text: Some(subscribed_reply_spec(kb[i]@[j].label@)),
            }
        },
{
    let b = kb[i]@[j];
    assert(b.label@ == options[3 * i + j]);
    lemma_keyboard_press_round_trip(b.label@);
}

/// Any button of an unsubscribe keyboard, when pressed, unsubscribes from the event
/// it is labelled with; the "cancel" button only dismisses the keyboard.
pub proof fn lemma_unsubscribe_keyboard_presses(
    kb: Seq<Vec<KeyboardButton>>,
    options: Seq<Seq<char>>,
    i: int,
    j: int,
)
    requires
        is_keyboard(kb, "unsub"@, options),
        0 <= i < kb.len(),
        0 <= j < kb[i]@.len(),
    ensures
        callback_plan_spec(Some(kb[i]@[j].data@)) == if kb[i]@[j].label@ == "cancel"@ {
            CallbackPlanView::Answer { store: StoreOpView::Keep, text: None }
        } else {
            CallbackPlanView::Answer {
                store: StoreOpView::Unsubscribe(kb[i]@[j].label@),
                text: Some("Unsubscribed from "@ + kb[i]@[j].label@),
            }
        },
{
    let b = kb[i]@[j];
    assert(b.label@ == options[3 * i + j]);
    lemma_keyboard_press_round_trip(b.label@);
}

} // verus!
