//! Desktop notification requests: what the notification boundary is asked to show.

use vstd::prelude::*;
use crate::modules::Urgency;

verus! {

/// How long a notification stays up.
#[derive(Debug, Clone, Copy, PartialEq, Eq, Structural)]
pub enum NotificationTimeout {
    Never,
    Milliseconds(u32),
}

/// A notification to show.
#[derive(Debug, Clone)]
pub struct NotificationRequest {
    pub summary: String,
    pub body: String,
    pub icon: Option<String>,
    pub urgency: Urgency,
    pub timeout: NotificationTimeout,
}

/// Notification settings: whether notifications are shown and for how long.
#[derive(Debug, Clone)]
pub struct NotificationService {
    enabled: bool,
    timeout_ms: u32,
}

impl NotificationService {
    pub closed spec fn is_enabled(&self) -> bool {
        self.enabled
    }

    pub closed spec fn timeout_setting(&self) -> u32 {
        self.timeout_ms
    }

    /// The timeout that a setting in milliseconds stands for: 0 means never.
    pub open spec fn timeout_of(ms: u32) -> NotificationTimeout {
        if ms == 0 { NotificationTimeout::Never } else { NotificationTimeout::Milliseconds(ms) }
    }

    /// Create the service; a timeout of 0 means notifications stay until dismissed.
    pub fn new(enabled: bool, timeout_ms: u32) -> (r: NotificationService)
        ensures
            r.is_enabled() == enabled,
            r.timeout_setting() == timeout_ms,
    {
        NotificationService { enabled, timeout_ms }
    }

    /// The notification to show for a message, or nothing when notifications are disabled.
    pub fn request(&self, title: &str, body: &str, urgency: Urgency) -> (r: Option<NotificationRequest>)
        ensures
            r is Some <==> self.is_enabled(),
            r matches Some(n) ==> {
                &&& n.summary@ == title@
                &&& n.body@ == body@
                &&& n.icon is None
                &&& n.urgency == urgency
                &&& n.timeout == Self::timeout_of(self.timeout_setting())
            },
    {
        if !self.enabled {
            return None;
        }
        Some(NotificationRequest {
            summary: title.to_owned(),
            body: body.to_owned(),
            icon: None,
            urgency,
            timeout: self.timeout(),
        })
    }

    /// The notification to show for a message with an icon, or nothing when notifications
    /// are disabled.
    pub fn request_with_icon(&self, title: &str, body: &str, urgency: Urgency, icon: &str) -> (r: Option<NotificationRequest>)
        ensures
            r is Some <==> self.is_enabled(),
            r matches Some(n) ==> {
                &&& n.summary@ == title@
                &&& n.body@ == body@
                &&& n.icon matches Some(i) && i@ == icon@
                &&& n.urgency == urgency
                &&& n.timeout == Self::timeout_of(self.timeout_setting())
            },
    {
        if !self.enabled {
            return None;
        }
        Some(NotificationRequest {
            summary: title.to_owned(),
            body: body.to_owned(),
            icon: Some(icon.to_owned()),
            urgency,
            timeout: self.timeout(),
        })
    }

    /// The configured timeout.
    pub fn timeout(&self) -> (r: NotificationTimeout)
        ensures
            r == Self::timeout_of(self.timeout_setting()),
    {
        if self.timeout_ms == 0 {
            NotificationTimeout::Never
        } else {
            NotificationTimeout::Milliseconds(self.timeout_ms)
        }
    }
}

impl Default for NotificationService {
    fn default() -> (r: NotificationService)
        ensures
            r.is_enabled(),
            r.timeout_setting() == 5000,
    {
        NotificationService::new(true, 5000)
    }
}

} // verus!
