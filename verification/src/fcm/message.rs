//! The message that carries a notification, and its builder.

use crate::fcm::notification::{Notification, NotificationView};
use crate::text::owned_all;
use vstd::prelude::*;
use vstd::string::*;

verus! {

/// `serde_json::Value`: a JSON value. The custom data of a message is
/// carried through as such a value; nothing is claimed of what it holds.
#[verifier::external_type_specification]
#[verifier::external_body]
pub struct ExJsonValue(serde_json::Value);

/// How urgently a message is delivered.
#[derive(Clone, Copy, Debug, PartialEq, Eq, Structural)]
pub enum Priority {
    Normal,
    High,
}

/// What is sent as the body of a request. A field that is not set is left
/// out of the request.
#[derive(Debug)]
pub struct MessageBody {
    pub collapse_key: Option<String>,
    pub content_available: Option<bool>,
    pub data: Option<serde_json::Value>,
    pub delay_while_idle: Option<bool>,
    pub dry_run: Option<bool>,
    pub notification: Option<Notification>,
    pub priority: Option<Priority>,
    pub registration_ids: Option<Vec<String>>,
    pub restricted_package_name: Option<String>,
    pub time_to_live: Option<i32>,
    pub to: Option<String>,
}

/// What a `MessageBody` holds.
pub struct MessageBodyView {
    pub collapse_key: Option<Seq<char>>,
    pub content_available: Option<bool>,
    pub data: Option<serde_json::Value>,
    pub delay_while_idle: Option<bool>,
    pub dry_run: Option<bool>,
    pub notification: Option<NotificationView>,
    pub priority: Option<Priority>,
    pub registration_ids: Option<Seq<Seq<char>>>,
    pub restricted_package_name: Option<Seq<char>>,
    pub time_to_live: Option<i32>,
    pub to: Option<Seq<char>>,
}

impl MessageBodyView {
    /// The body with no field set.
    pub open spec fn empty() -> MessageBodyView {
        MessageBodyView {
            collapse_key: None,
            content_available: None,
            data: None,
            delay_while_idle: None,
            dry_run: None,
            notification: None,
            priority: None,
            registration_ids: None,
            restricted_package_name: None,
            time_to_live: None,
            to: None,
        }
    }
}

impl View for MessageBody {
    type V = MessageBodyView;

    open spec fn view(&self) -> MessageBodyView {
        MessageBodyView {
            collapse_key: self.collapse_key.deep_view(),
            content_available: self.content_available,
            data: self.data,
            delay_while_idle: self.delay_while_idle,
            dry_run: self.dry_run,
            notification: self.notification.deep_view(),
            priority: self.priority,
            registration_ids: self.registration_ids.deep_view(),
            restricted_package_name: self.restricted_package_name.deep_view(),
            time_to_live: self.time_to_live,
            to: self.to.deep_view(),
        }
    }
}

/// A message, ready to be sent: the body of the request and the key that
/// authorises it.
#[derive(Debug)]
pub struct Message {
    pub api_key: String,
    pub body: MessageBody,
}

/// What a `Message`, or its builder, holds.
pub struct MessageView {
    pub api_key: Seq<char>,
    pub body: MessageBodyView,
}

impl View for Message {
    type V = MessageView;

    open spec fn view(&self) -> MessageView {
        MessageView { api_key: self.api_key@, body: self.body@ }
    }
}

impl Message {
    /// The value of the request's `Authorization` header.
    pub fn authorization(&self) -> (r: String)
        ensures
            r@ == "key="@ + self@.api_key,
    {
        let mut r = "key=".to_owned();
        r.append(self.api_key.as_str());
        r
    }
}

/// Builds a `Message` field by field.
#[derive(Debug)]
pub struct MessageBuilder {
    api_key: String,
    collapse_key: Option<String>,
    content_available: Option<bool>,
    data: Option<serde_json::Value>,
    delay_while_idle: Option<bool>,
    dry_run: Option<bool>,
    notification: Option<Notification>,
    priority: Option<Priority>,
    registration_ids: Option<Vec<String>>,
    restricted_package_name: Option<String>,
    time_to_live: Option<i32>,
    to: Option<String>,
}

impl View for MessageBuilder {
    type V = MessageView;

    closed spec fn view(&self) -> MessageView {
        MessageView {
            api_key: self.api_key@,
            body: MessageBodyView {
                collapse_key: self.collapse_key.deep_view(),
                content_available: self.content_available,
                data: self.data,
                delay_while_idle: self.delay_while_idle,
                dry_run: self.dry_run,
                notification: self.notification.deep_view(),
                priority: self.priority,
                registration_ids: self.registration_ids.deep_view(),
                restricted_package_name: self.restricted_package_name.deep_view(),
                time_to_live: self.time_to_live,
                to: self.to.deep_view(),
            },
        }
    }
}

impl MessageBuilder {
    /// A builder for a message to one device.
    pub fn new(api_key: &str, to: &str) -> (r: MessageBuilder)
        ensures
            r@ == (MessageView {
                api_key: api_key@,
                body: MessageBodyView { to: Some(to@), ..MessageBodyView::empty() },
            }),
    {
        MessageBuilder {
            api_key: api_key.to_owned(),
            to: Some(to.to_owned()),
            registration_ids: None,
            collapse_key: None,
            priority: None,
            content_available: None,
            delay_while_idle: None,
            time_to_live: None,
            restricted_package_name: None,
            dry_run: None,
            data: None,
            notification: None,
        }
    }

    /// A builder for a message to several devices.
    pub fn new_multi(api_key: &str, ids: &[&str]) -> (r: MessageBuilder)
        ensures
            r@ == (MessageView {
                api_key: api_key@,
                body: MessageBodyView {
                    registration_ids: Some(ids.deep_view()),
                    ..MessageBodyView::empty()
                },
            }),
    {
        MessageBuilder {
            api_key: api_key.to_owned(),
            to: None,
            registration_ids: Some(owned_all(ids)),
            collapse_key: None,
            priority: None,
            content_available: None,
            delay_while_idle: None,
            time_to_live: None,
            restricted_package_name: None,
            dry_run: None,
            data: None,
            notification: None,
        }
    }

    /// Sets the devices that the message goes to.
    pub fn registration_ids(&mut self, ids: &[&str]) -> (r: &mut Self)
        ensures
            r@ == (MessageView {
                body: MessageBodyView { registration_ids: Some(ids.deep_view()), ..old(self)@.body },
                ..old(self)@
            }),
            *final(self) == *final(r),
    {
        self.registration_ids = Some(owned_all(ids));
        self
    }

    /// Sets the key of a group of messages that can be collapsed.
    pub fn collapse_key(&mut self, collapse_key: &str) -> (r: &mut Self)
        ensures
            r@ == (MessageView {
                body: MessageBodyView { collapse_key: Some(collapse_key@), ..old(self)@.body },
                ..old(self)@
            }),
            *final(self) == *final(r),
    {
        self.collapse_key = Some(collapse_key.to_owned());
        self
    }

    /// Sets the priority of the message.
    pub fn priority(&mut self, priority: Priority) -> (r: &mut Self)
        ensures
            r@ == (MessageView {
                body: MessageBodyView { priority: Some(priority), ..old(self)@.body },
                ..old(self)@
            }),
            *final(self) == *final(r),
    {
        self.priority = Some(priority);
        self
    }

    /// Sets the `content-available` field, for iOS.
    pub fn content_available(&mut self, content_available: bool) -> (r: &mut Self)
        ensures
            r@ == (MessageView {
                body: MessageBodyView { content_available: Some(content_available), ..old(self)@.body },
                ..old(self)@
            }),
            *final(self) == *final(r),
    {
        self.content_available = Some(content_available);
        self
    }

    /// Where `true`, the message is sent only when the device is active.
    pub fn delay_while_idle(&mut self, delay_while_idle: bool) -> (r: &mut Self)
        ensures
            r@ == (MessageView {
                body: MessageBodyView { delay_while_idle: Some(delay_while_idle), ..old(self)@.body },
                ..old(self)@
            }),
            *final(self) == *final(r),
    {
        self.delay_while_idle = Some(delay_while_idle);
        self
    }

    /// Sets for how many seconds the message is kept while the device is offline.
    pub fn time_to_live(&mut self, time_to_live: i32) -> (r: &mut Self)
        ensures
            r@ == (MessageView {
                body: MessageBodyView { time_to_live: Some(time_to_live), ..old(self)@.body },
                ..old(self)@
            }),
            *final(self) == *final(r),
    {
        self.time_to_live = Some(time_to_live);
        self
    }

    /// Sets the package name that the registration tokens must match.
    pub fn restricted_package_name(&mut self, restricted_package_name: &str) -> (r: &mut Self)
        ensures
            r@ == (MessageView {
                body: MessageBodyView { restricted_package_name: Some(restricted_package_name@), ..old(self)@.body },
                ..old(self)@
            }),
            *final(self) == *final(r),
    {
        self.restricted_package_name = Some(restricted_package_name.to_owned());
        self
    }

    /// Where `true`, the request is tested and no message is sent.
    pub fn dry_run(&mut self, dry_run: bool) -> (r: &mut Self)
        ensures
            r@ == (MessageView {
                body: MessageBodyView { dry_run: Some(dry_run), ..old(self)@.body },
                ..old(self)@
            }),
            *final(self) == *final(r),
    {
        self.dry_run = Some(dry_run);
        self
    }

    /// Sets the custom data of the message: key-value pairs that the
    /// application on the device handles, as a JSON value.
    pub fn data(&mut self, data: serde_json::Value) -> (r: &mut Self)
        ensures
            r@ == (MessageView {
                body: MessageBodyView { data: Some(data), ..old(self)@.body },
                ..old(self)@
            }),
            *final(self) == *final(r),
    {
        self.data = Some(data);
        self
    }

    /// Sets the notification of the message.
    pub fn notification(&mut self, notification: Notification) -> (r: &mut Self)
        ensures
            r@ == (MessageView {
                body: MessageBodyView { notification: Some(notification@), ..old(self)@.body },
                ..old(self)@
            }),
            *final(self) == *final(r),
    {
        self.notification = Some(notification);
        self
    }

    /// Completes the build: the message holds what the builder held.
    pub fn build(self) -> (r: Message)
        ensures
            r@ == self@,
    {
        Message {
            api_key: self.api_key,
            body: MessageBody {
                to: self.to,
                registration_ids: self.registration_ids,
                collapse_key: self.collapse_key,
                priority: self.priority,
                content_available: self.content_available,
                delay_while_idle: self.delay_while_idle,
                time_to_live: self.time_to_live,
                restricted_package_name: self.restricted_package_name,
                dry_run: self.dry_run,
                data: self.data,
                notification: self.notification,
            },
        }
    }
}

} // verus!
