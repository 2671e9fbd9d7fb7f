use apecast::snapshot::ProposalResponse;
use apecast::telegram::{
    address_plan, inline_results, keyboard_button, make_keyboard, plan_address_reply, plan_callback,
    proposal_line, proposals_message, remaining_text, subscribe_keyboard, subscribed_reply, subscribed_text,
    unsubscribe_keyboard, AddressPlan, CallbackPlan, KeyboardButton, LinkAction, State, StoreOp,
};

fn strings(v: &[&str]) -> Vec<String> {
    v.iter().map(|s| s.to_string()).collect()
}

fn layout(kb: &Vec<Vec<KeyboardButton>>) -> Vec<Vec<(String, String)>> {
    kb.iter().map(|row| row.iter().map(|b| (b.label.clone(), b.data.clone())).collect()).collect()
}

#[test]
fn default_state_is_idle() {
    assert_eq!(State::default(), State::Idle);
    assert_ne!(State::default(), State::ReceiveApeAddress);
}

#[test]
fn keyboard_rows_of_three() {
    let kb = make_keyboard("sub", &strings(&["price", "proposal", "news", "cancel"]));
    let rows = layout(&kb);
    assert_eq!(rows.len(), 2);
    assert_eq!(rows[0].len(), 3);
    assert_eq!(rows[1], vec![("cancel".to_string(), "sub:cancel".to_string())]);
    assert_eq!(rows[0][1], ("proposal".to_string(), "sub:proposal".to_string()));
    assert!(make_keyboard("sub", &vec![]).is_empty());
    assert_eq!(layout(&make_keyboard("x", &strings(&["a", "b", "c"]))).len(), 1);
    assert_eq!(layout(&make_keyboard("x", &strings(&["a", "b", "c", "d", "e", "f", "g"]))).iter().map(|r| r.len()).collect::<Vec<_>>(), vec![3, 3, 1]);
    let b = keyboard_button("unsub", "news");
    assert_eq!((b.label, b.data), ("news".to_string(), "unsub:news".to_string()));
}

#[test]
fn subscribe_keyboard_offers_the_events() {
    assert_eq!(
        layout(&subscribe_keyboard()),
        vec![
            vec![
                ("price".to_string(), "sub:price".to_string()),
                ("proposal".to_string(), "sub:proposal".to_string()),
                ("news".to_string(), "sub:news".to_string()),
            ],
            vec![("cancel".to_string(), "sub:cancel".to_string())],
        ]
    );
}

#[test]
fn unsubscribe_keyboard_lists_the_subscriptions() {
    assert!(unsubscribe_keyboard(&vec![]).is_none());
    let kb = unsubscribe_keyboard(&strings(&["news"])).unwrap();
    assert_eq!(
        layout(&kb),
        vec![vec![("news".to_string(), "unsub:news".to_string()), ("cancel".to_string(), "unsub:cancel".to_string())]]
    );
}

fn answer(plan: CallbackPlan) -> (String, Option<String>) {
    match plan {
        CallbackPlan::Ignore => panic!("expected an answer"),
        CallbackPlan::Answer { store, text } => {
            let store = match store {
                StoreOp::Keep => "keep".to_string(),
                StoreOp::Subscribe(e) => format!("sub {}", e),
                StoreOp::Unsubscribe(e) => format!("unsub {}", e),
            };
            (store, text)
        }
    }
}

#[test]
fn callbacks_without_command_are_ignored() {
    assert!(matches!(plan_callback(None), CallbackPlan::Ignore));
    assert!(matches!(plan_callback(Some("price")), CallbackPlan::Ignore));
}

#[test]
fn subscribe_callbacks() {
    assert_eq!(answer(plan_callback(Some("sub:cancel"))), ("keep".to_string(), None));
    assert_eq!(
        answer(plan_callback(Some("sub:price"))),
        (
            "sub price".to_string(),
            Some("Subscribed to price! You will receive a message when there are significant changes in the price of apecoin".to_string())
        )
    );
    assert_eq!(
        answer(plan_callback(Some("sub:proposal"))).1.unwrap(),
        "Subscribed to proposal! You will receive a message when a new proposal is listed"
    );
    assert_eq!(
        answer(plan_callback(Some("sub:news"))).1.unwrap(),
        "Subscribed to news! You will receive a message when some relevant information about apecoin is published"
    );
    assert_eq!(answer(plan_callback(Some("sub:thankape"))), ("sub thankape".to_string(), Some("Subscribed to thankape!".to_string())));
    assert_eq!(answer(plan_callback(Some("sub:a:b"))).0, "sub a:b");
}

#[test]
fn unsubscribe_and_unknown_callbacks() {
    assert_eq!(answer(plan_callback(Some("unsub:cancel"))), ("keep".to_string(), None));
    assert_eq!(answer(plan_callback(Some("unsub:news"))), ("unsub news".to_string(), Some("Unsubscribed from news".to_string())));
    assert_eq!(
        answer(plan_callback(Some("buy:ape"))),
        ("keep".to_string(), Some("Sorry, could not understand you".to_string()))
    );
}

#[test]
fn keyboard_press_round_trip() {
    for option in ["price", "proposal", "news", "cancel", "weird:option"] {
        let kb = make_keyboard("sub", &strings(&[option]));
        let plan = answer(plan_callback(Some(kb[0][0].data.as_str())));
        if option == "cancel" {
            assert_eq!(plan, ("keep".to_string(), None));
        } else {
            assert_eq!(plan, (format!("sub {}", option), Some(subscribed_reply(option))));
        }
    }
}

fn address(plan: AddressPlan) -> (String, Option<String>, bool, bool) {
    let action = match plan.action {
        LinkAction::Nothing => "nothing".to_string(),
        LinkAction::Link(a) => format!("link {}", a),
        LinkAction::Unlink => "unlink".to_string(),
    };
    (action, plan.reply, plan.html, plan.exit)
}

#[test]
fn address_dialogue() {
    assert_eq!(
        address(plan_address_reply(None)),
        ("nothing".to_string(), Some("Send me plain text.".to_string()), false, false)
    );
    assert_eq!(
        address(plan_address_reply(Some("0x4d22 my address"))),
        ("link 0x4d22".to_string(), Some("Linked address <b>0x4d22 my address</b>".to_string()), true, true)
    );
    assert_eq!(address(plan_address_reply(Some("cancel"))), ("nothing".to_string(), None, false, true));
    assert_eq!(address(plan_address_reply(Some("CaNcEl please"))), ("nothing".to_string(), None, false, true));
    assert_eq!(
        address(plan_address_reply(Some("NONE"))),
        ("unlink".to_string(), Some("Address unlinked".to_string()), false, true)
    );
    assert_eq!(
        address(plan_address_reply(Some("hello"))),
        (
            "nothing".to_string(),
            Some("The address should starts with 0x. You can also write <b>cancel</b> to cancel or <b>none</b> to unlink".to_string()),
            true,
            false
        )
    );
    assert_eq!(address(address_plan(Some("Cancel"), "cancel")).3, true);
    assert_eq!(address(address_plan(Some("0X1"), "0x1")).0, "nothing");
}

#[test]
fn subscription_list() {
    assert_eq!(subscribed_text(&vec![]), "Not subscribed to anything...");
    assert_eq!(subscribed_text(&strings(&["price", "news"])), "You are subscribed to: price, news");
}

#[test]
fn time_left() {
    assert_eq!(remaining_text(90000), "1 days");
    assert_eq!(remaining_text(86400 * 3 + 5), "3 days");
    assert_eq!(remaining_text(86399), "23 hours");
    assert_eq!(remaining_text(7200), "2 hours");
    assert_eq!(remaining_text(3599), "59 minutes");
    assert_eq!(remaining_text(0), "0 minutes");
    assert_eq!(remaining_text(-130), "-2 minutes");
    assert_eq!(remaining_text(-59), "0 minutes");
    assert_eq!(remaining_text(i64::MIN), format!("{} minutes", i64::MIN / 60));
}

fn proposal(id: &str, title: &str) -> ProposalResponse {
    ProposalResponse {
        id: id.to_string(),
        title: title.to_string(),
        end: 0,
        state: "active".to_string(),
        author: "a".to_string(),
    }
}

#[test]
fn proposal_listing() {
    let p = proposal("0x1", "AIP-7: Grants");
    assert_eq!(
        proposal_line(&p, 172800),
        "<a href=\"https://snapshot.org/#/apecoin.eth/proposal/0x1\">AIP-7: Grants</a> ends in <b>2 days</b> "
    );
    let props = vec![p, proposal("0x2", "AIP-8")];
    assert_eq!(
        proposals_message(&props, &vec![172800, 600]),
        "<a href=\"https://snapshot.org/#/apecoin.eth/proposal/0x1\">AIP-7: Grants</a> ends in <b>2 days</b> \n<a href=\"https://snapshot.org/#/apecoin.eth/proposal/0x2\">AIP-8</a> ends in <b>10 minutes</b> "
    );
    assert_eq!(proposals_message(&vec![], &vec![]), "");
}

#[test]
fn inline_suggestions() {
    let props = vec![proposal("a", "Treasury grant"), proposal("b", "Council vote"), proposal("c", "Grant round")];
    let found = inline_results(&props, "rant");
    assert_eq!(found.len(), 2);
    assert_eq!(found[0].id, "0");
    assert_eq!(found[0].title, "Treasury grant");
    assert_eq!(found[0].url, "https://snapshot.org/#/apecoin.eth/proposal/a");
    assert_eq!(found[1].id, "2");
    assert_eq!(inline_results(&props, "").len(), 3);
    assert!(inline_results(&props, "nothing").is_empty());
}
