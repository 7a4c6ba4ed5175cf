//! The notification that a message shows on the device, and its builder.

use crate::text::owned_all;
use vstd::prelude::*;
use vstd::string::*;

verus! {

/// What a device shows for a message. A field that is not set is left out
/// of the message.
#[derive(Debug)]
pub struct Notification {
    pub badge: Option<String>,
    pub body: Option<String>,
    pub body_loc_args: Option<Vec<String>>,
    pub body_loc_key: Option<String>,
    pub click_action: Option<String>,
    pub color: Option<String>,
    pub icon: Option<String>,
    pub sound: Option<String>,
    pub tag: Option<String>,
    pub title: Option<String>,
    pub title_loc_args: Option<Vec<String>>,
    pub title_loc_key: Option<String>,
}

/// What a `Notification`, or its builder, holds.
pub struct NotificationView {
    pub badge: Option<Seq<char>>,
    pub body: Option<Seq<char>>,
    pub body_loc_args: Option<Seq<Seq<char>>>,
    pub body_loc_key: Option<Seq<char>>,
    pub click_action: Option<Seq<char>>,
    pub color: Option<Seq<char>>,
    pub icon: Option<Seq<char>>,
    pub sound: Option<Seq<char>>,
    pub tag: Option<Seq<char>>,
    pub title: Option<Seq<char>>,
    pub title_loc_args: Option<Seq<Seq<char>>>,
    pub title_loc_key: Option<Seq<char>>,
}

impl NotificationView {
    /// The notification with no field set.
    pub open spec fn empty() -> NotificationView {
        NotificationView {
            badge: None,
            body: None,
            body_loc_args: None,
            body_loc_key: None,
            click_action: None,
            color: None,
            icon: None,
            sound: None,
            tag: None,
            title: None,
            title_loc_args: None,
            title_loc_key: None,
        }
    }
}

impl View for Notification {
    type V = NotificationView;

    open spec fn view(&self) -> NotificationView {
        NotificationView {
            badge: self.badge.deep_view(),
            body: self.body.deep_view(),
            body_loc_args: self.body_loc_args.deep_view(),
            body_loc_key: self.body_loc_key.deep_view(),
            click_action: self.click_action.deep_view(),
            color: self.color.deep_view(),
            icon: self.icon.deep_view(),
            sound: self.sound.deep_view(),
            tag: self.tag.deep_view(),
            title: self.title.deep_view(),
            title_loc_args: self.title_loc_args.deep_view(),
            title_loc_key: self.title_loc_key.deep_view(),
        }
    }
}

impl DeepView for Notification {
    type V = NotificationView;

    open spec fn deep_view(&self) -> NotificationView {
        self@
    }
}

/// Builds a `Notification` field by field.
#[derive(Debug)]
pub struct NotificationBuilder {
    title: Option<String>,
    body: Option<String>,
    icon: Option<String>,
    sound: Option<String>,
    badge: Option<String>,
    tag: Option<String>,
    color: Option<String>,
    click_action: Option<String>,
    body_loc_key: Option<String>,
    body_loc_args: Option<Vec<String>>,
    title_loc_key: Option<String>,
    title_loc_args: Option<Vec<String>>,
}

impl View for NotificationBuilder {
    type V = NotificationView;

    closed spec fn view(&self) -> NotificationView {
        NotificationView {
            badge: self.badge.deep_view(),
            body: self.body.deep_view(),
            body_loc_args: self.body_loc_args.deep_view(),
            body_loc_key: self.body_loc_key.deep_view(),
            click_action: self.click_action.deep_view(),
            color: self.color.deep_view(),
            icon: self.icon.deep_view(),
            sound: self.sound.deep_view(),
            tag: self.tag.deep_view(),
            title: self.title.deep_view(),
            title_loc_args: self.title_loc_args.deep_view(),
            title_loc_key: self.title_loc_key.deep_view(),
        }
    }
}

impl NotificationBuilder {
    /// A builder with no field set.
    pub fn new() -> (r: NotificationBuilder)
        ensures
            r@ == NotificationView::empty(),
    {
        NotificationBuilder {
            title: None,
            body: None,
            icon: None,
            sound: None,
            badge: None,
            tag: None,
            color: None,
            click_action: None,
            body_loc_key: None,
            body_loc_args: None,
            title_loc_key: None,
            title_loc_args: None,
        }
    }

    /// Sets the title of the notification.
    pub fn title(&mut self, title: &str) -> (r: &mut Self)
        ensures
            r@ == (NotificationView { title: Some(title@), ..old(self)@ }),
            *final(self) == *final(r),
    {
        self.title = Some(title.to_owned());
        self
    }

    /// Sets the body of the notification.
    pub fn body(&mut self, body: &str) -> (r: &mut Self)
        ensures
            r@ == (NotificationView { body: Some(body@), ..old(self)@ }),
            *final(self) == *final(r),
    {
        self.body = Some(body.to_owned());
        self
    }

    /// Sets the notification icon.
    pub fn icon(&mut self, icon: &str) -> (r: &mut Self)
        ensures
            r@ == (NotificationView { icon: Some(icon@), ..old(self)@ }),
            *final(self) == *final(r),
    {
        self.icon = Some(icon.to_owned());
        self
    }

    /// Sets the sound to be played.
    pub fn sound(&mut self, sound: &str) -> (r: &mut Self)
        ensures
            r@ == (NotificationView { sound: Some(sound@), ..old(self)@ }),
            *final(self) == *final(r),
    {
        self.sound = Some(sound.to_owned());
        self
    }

    /// Sets the badge for iOS notifications.
    pub fn badge(&mut self, badge: &str) -> (r: &mut Self)
        ensures
            r@ == (NotificationView { badge: Some(badge@), ..old(self)@ }),
            *final(self) == *final(r),
    {
        self.badge = Some(badge.to_owned());
        self
    }

    /// Sets the tag: a notification replaces the ones shown with the same tag.
    pub fn tag(&mut self, tag: &str) -> (r: &mut Self)
        ensures
            r@ == (NotificationView { tag: Some(tag@), ..old(self)@ }),
            *final(self) == *final(r),
    {
        self.tag = Some(tag.to_owned());
        self
    }

    /// Sets the colour of the icon, in `#rrggbb` format.
    pub fn color(&mut self, color: &str) -> (r: &mut Self)
        ensures
            r@ == (NotificationView { color: Some(color@), ..old(self)@ }),
            *final(self) == *final(r),
    {
        self.color = Some(color.to_owned());
        self
    }

    /// Sets what happens when the user clicks on the notification.
    pub fn click_action(&mut self, click_action: &str) -> (r: &mut Self)
        ensures
            r@ == (NotificationView { click_action: Some(click_action@), ..old(self)@ }),
            *final(self) == *final(r),
    {
        self.click_action = Some(click_action.to_owned());
        self
    }

    /// Sets the key of the body string for localisation.
    pub fn body_loc_key(&mut self, body_loc_key: &str) -> (r: &mut Self)
        ensures
            r@ == (NotificationView { body_loc_key: Some(body_loc_key@), ..old(self)@ }),
            *final(self) == *final(r),
    {
        self.body_loc_key = Some(body_loc_key.to_owned());
        self
    }

    /// Sets the values that replace the format specifiers in the body string.
    pub fn body_loc_args(&mut self, body_loc_args: &[&str]) -> (r: &mut Self)
        ensures
            r@ == (NotificationView { body_loc_args: Some(body_loc_args.deep_view()), ..old(self)@ }),
            *final(self) == *final(r),
    {
        self.body_loc_args = Some(owned_all(body_loc_args));
        self
    }

    /// Sets the key of the title string for localisation.
    pub fn title_loc_key(&mut self, title_loc_key: &str) -> (r: &mut Self)
        ensures
            r@ == (NotificationView { title_loc_key: Some(title_loc_key@), ..old(self)@ }),
            *final(self) == *final(r),
    {
        self.title_loc_key = Some(title_loc_key.to_owned());
        self
    }

    /// Sets the values that replace the format specifiers in the title string.
    pub fn title_loc_args(&mut self, title_loc_args: &[&str]) -> (r: &mut Self)
        ensures
            r@ == (NotificationView { title_loc_args: Some(title_loc_args.deep_view()), ..old(self)@ }),
            *final(self) == *final(r),
    {
        self.title_loc_args = Some(owned_all(title_loc_args));
        self
    }

    /// Completes the build: the notification holds what the builder held.
    pub fn build(self) -> (r: Notification)
        ensures
            r@ == self@,
    {
        Notification {
            title: self.title,
            body: self.body,
            icon: self.icon,
            sound: self.sound,
            badge: self.badge,
            tag: self.tag,
            color: self.color,
            click_action: self.click_action,
            body_loc_key: self.body_loc_key,
            body_loc_args: self.body_loc_args,
            title_loc_key: self.title_loc_key,
            title_loc_args: self.title_loc_args,
        }
    }
}

} // verus!
