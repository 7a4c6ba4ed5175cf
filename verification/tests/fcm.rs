use listing_watch::fcm::{Client, MessageBuilder, NotificationBuilder, Priority};

#[test]
fn new_notification_has_no_field() {
    let n = NotificationBuilder::new().build();
    assert!(n.title.is_none());
    assert!(n.body.is_none());
    assert!(n.icon.is_none());
    assert!(n.sound.is_none());
    assert!(n.badge.is_none());
    assert!(n.tag.is_none());
    assert!(n.color.is_none());
    assert!(n.click_action.is_none());
    assert!(n.body_loc_key.is_none());
    assert!(n.body_loc_args.is_none());
    assert!(n.title_loc_key.is_none());
    assert!(n.title_loc_args.is_none());
}

#[test]
fn notification_fields_are_set_one_by_one() {
    let mut builder = NotificationBuilder::new();
    builder.title("t").body("b").icon("i");
    builder.sound("s");
    builder.badge("g");
    builder.tag("a");
    builder.color("#112233");
    builder.click_action("c");
    builder.body_loc_key("bk");
    builder.body_loc_args(&["x", "y"]);
    builder.title_loc_key("tk");
    builder.title_loc_args(&["z"]);
    let n = builder.build();
    assert_eq!(n.title.as_deref(), Some("t"));
    assert_eq!(n.body.as_deref(), Some("b"));
    assert_eq!(n.icon.as_deref(), Some("i"));
    assert_eq!(n.sound.as_deref(), Some("s"));
    assert_eq!(n.badge.as_deref(), Some("g"));
    assert_eq!(n.tag.as_deref(), Some("a"));
    assert_eq!(n.color.as_deref(), Some("#112233"));
    assert_eq!(n.click_action.as_deref(), Some("c"));
    assert_eq!(n.body_loc_key.as_deref(), Some("bk"));
    assert_eq!(n.body_loc_args, Some(vec!["x".to_string(), "y".to_string()]));
    assert_eq!(n.title_loc_key.as_deref(), Some("tk"));
    assert_eq!(n.title_loc_args, Some(vec!["z".to_string()]));
}

#[test]
fn later_value_replaces_the_earlier() {
    let mut builder = NotificationBuilder::new();
    builder.title("first");
    builder.title("second");
    let n = builder.build();
    assert_eq!(n.title.as_deref(), Some("second"));
    assert!(n.body.is_none());
}

#[test]
fn message_to_one_device() {
    let message = MessageBuilder::new("key", "device").build();
    assert_eq!(message.api_key, "key");
    assert_eq!(message.body.to.as_deref(), Some("device"));
    assert!(message.body.registration_ids.is_none());
    assert!(message.body.collapse_key.is_none());
    assert!(message.body.priority.is_none());
    assert!(message.body.content_available.is_none());
    assert!(message.body.delay_while_idle.is_none());
    assert!(message.body.time_to_live.is_none());
    assert!(message.body.restricted_package_name.is_none());
    assert!(message.body.dry_run.is_none());
    assert!(message.body.data.is_none());
    assert!(message.body.notification.is_none());
}

#[test]
fn message_to_several_devices() {
    let message = MessageBuilder::new_multi("key", &["a", "b"]).build();
    assert_eq!(message.api_key, "key");
    assert!(message.body.to.is_none());
    assert_eq!(message.body.registration_ids, Some(vec!["a".to_string(), "b".to_string()]));
}

#[test]
fn message_fields_are_set_one_by_one() {
    let mut notification = NotificationBuilder::new();
    notification.title("Hey!");
    let mut builder = MessageBuilder::new("key", "device");
    builder.registration_ids(&["r"]).collapse_key("ck").priority(Priority::High);
    builder.content_available(true);
    builder.delay_while_idle(false);
    builder.time_to_live(60);
    builder.restricted_package_name("pkg");
    builder.dry_run(true);
    builder.data(serde_json::Value::String("Howdy!".to_string()));
    builder.notification(notification.build());
    let message = builder.build();
    assert_eq!(message.body.to.as_deref(), Some("device"));
    assert_eq!(message.body.registration_ids, Some(vec!["r".to_string()]));
    assert_eq!(message.body.collapse_key.as_deref(), Some("ck"));
    assert_eq!(message.body.priority, Some(Priority::High));
    assert_eq!(message.body.content_available, Some(true));
    assert_eq!(message.body.delay_while_idle, Some(false));
    assert_eq!(message.body.time_to_live, Some(60));
    assert_eq!(message.body.restricted_package_name.as_deref(), Some("pkg"));
    assert_eq!(message.body.dry_run, Some(true));
    assert_eq!(message.body.data, Some(serde_json::Value::String("Howdy!".to_string())));
    assert_eq!(
        message.body.notification.and_then(|n| n.title),
        Some("Hey!".to_string())
    );
}

#[test]
fn authorization_is_the_key_behind_its_label() {
    let message = MessageBuilder::new("SECRET", "device").build();
    assert_eq!(message.authorization(), "key=SECRET");
    assert_eq!(MessageBuilder::new("", "device").build().authorization(), "key=");
}

#[test]
fn client_addresses_its_device() {
    let client = Client::new("key", "device");
    let mut notification = NotificationBuilder::new();
    notification.title("t").body("b");
    let message = client.notification_message(notification.build());
    assert_eq!(message.api_key, "key");
    assert_eq!(message.authorization(), "key=key");
    assert_eq!(message.body.to.as_deref(), Some("device"));
    assert!(message.body.registration_ids.is_none());
    assert!(message.body.data.is_none());
    assert!(message.body.priority.is_none());
    let shown = message.body.notification.expect("a notification");
    assert_eq!(shown.title.as_deref(), Some("t"));
    assert_eq!(shown.body.as_deref(), Some("b"));
}
