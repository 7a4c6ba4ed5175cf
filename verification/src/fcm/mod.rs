//! Messages for Firebase Cloud Messaging, and the client that they are sent
//! for.

pub mod message;
pub mod notification;

pub use crate::fcm::message::{Message, MessageBody, MessageBuilder, Priority};
pub use crate::fcm::notification::{Notification, NotificationBuilder};
use crate::fcm::message::{MessageBodyView, MessageView};
use vstd::prelude::*;
use vstd::string::*;

verus! {

/// Who sends, and to whom: the key that authorises the requests and the
/// device that the messages go to.
#[derive(Debug)]
pub struct Client {
    api_key: String,
    to: String,
}

/// What a `Client` holds.
pub struct ClientView {
    pub api_key: Seq<char>,
    pub to: Seq<char>,
}

impl View for Client {
    type V = ClientView;

    closed spec fn view(&self) -> ClientView {
        ClientView { api_key: self.api_key@, to: self.to@ }
    }
}

impl Client {
    /// A client that sends with `api_key` to the device `to`.
    pub fn new(api_key: &str, to: &str) -> (r: Client)
        ensures
            r@ == (ClientView { api_key: api_key@, to: to@ }),
    {
        Client { api_key: api_key.to_owned(), to: to.to_owned() }
    }

    /// The message that carries `notification` from this client to its
    /// device: nothing else is set in it.
    pub fn notification_message(&self, notification: Notification) -> (r: Message)
        ensures
            r@ == (MessageView {
                api_key: self@.api_key,
                body: MessageBodyView {
                    to: Some(self@.to),
                    notification: Some(notification@),
                    ..MessageBodyView::empty()
                },
            }),
    {
        let mut builder = MessageBuilder::new(self.api_key.as_str(), self.to.as_str());
        builder.notification(notification);
        builder.build()
    }
}

} // verus!
