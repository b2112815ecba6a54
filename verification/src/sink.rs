//! The display seam: whatever renders a received notification for the user
//! (a native toast, a GUI event, a printer when headless, a test spy).

use vstd::prelude::*;
use crate::notification::Notification;
use crate::text::push_str;

verus! {

/// Something went wrong rendering a notification.
#[derive(Debug, PartialEq, Eq)]
pub enum DisplayError {
    /// The platform display backend failed.
    Backend(String),
    /// No native display on this platform/build.
    Unsupported,
}

pub const BACKEND_PREFIX: &'static str = "display backend error: ";

pub const UNSUPPORTED_MESSAGE: &'static str = "native display not supported here";

impl DisplayError {
    /// The human-readable message.
    pub open spec fn message_spec(&self) -> Seq<char> {
        match self {
            DisplayError::Backend(d) => BACKEND_PREFIX@ + d@,
            DisplayError::Unsupported => UNSUPPORTED_MESSAGE@,
        }
    }

    /// The error as text, e.g. `display backend error: no toaster`.
    pub fn message(&self) -> (m: String)
        ensures
            m@ == self.message_spec(),
    {
        let mut m = String::new();
        match self {
            DisplayError::Backend(d) => {
                push_str(&mut m, BACKEND_PREFIX);
                push_str(&mut m, d.as_str());
            },
            DisplayError::Unsupported => {
                push_str(&mut m, UNSUPPORTED_MESSAGE);
            },
        }
        m
    }
}

/// Renders a single notification for the user.
pub trait NotificationSink {
    /// Whether this sink may be asked to show `notification`.
    spec fn accepts(&self, notification: &Notification) -> bool;

    /// Whether showing `notification` may end with `result`.
    spec fn outcome(&self, notification: &Notification, result: Result<(), DisplayError>) -> bool;

    fn show(&self, notification: &Notification) -> (r: Result<(), DisplayError>)
        requires
            self.accepts(notification),
        ensures
            self.outcome(notification, r),
    ;
}

/// Any matching closure is a sink, so a handler or test spy can stand
/// wherever a sink is expected; it accepts what the closure accepts, and
/// showing returns what the closure returns.
impl<F: Fn(&Notification) -> Result<(), DisplayError>> NotificationSink for F {
    open spec fn accepts(&self, notification: &Notification) -> bool {
        call_requires(*self, (notification,))
    }

    open spec fn outcome(&self, notification: &Notification, result: Result<(), DisplayError>) -> bool {
        call_ensures(*self, (notification,), result)
    }

    fn show(&self, notification: &Notification) -> (r: Result<(), DisplayError>) {
        self(notification)
    }
}

} // verus!
