use yinchabot::dispatch::{decide, Action};

#[test]
fn synthetic_update_delivers_scheduled_content() {
    let a = decide(0, 77, true, &String::new());
    assert_eq!(a, Action::DeliverScheduled { chat_id: 77 });
}

#[test]
fn subscribe_command_in_group_subscribes() {
    let a = decide(12, 77, true, &String::from("/subscribe @yinchabot"));
    assert_eq!(a, Action::Subscribe { chat_id: 77 });
}

#[test]
fn subscribe_command_in_private_chat_is_ignored() {
    let a = decide(12, 77, false, &String::from("/subscribe @yinchabot"));
    assert_eq!(a, Action::Ignore);
}

#[test]
fn other_text_is_ignored() {
    let a = decide(12, 77, true, &String::from("/subscribe @someone_else"));
    assert_eq!(a, Action::Ignore);
}
