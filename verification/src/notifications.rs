//! The notification boundary: the sink capability every delivery goes
//! through, its opaque error, and the properties a desktop notification
//! carries.
use vstd::prelude::*;
use vstd::string::*;

pub mod windows;

verus! {

/// A sink that delivers one text message, or fails with an opaque
/// delivery error; implementations are platform-specific and live with
/// the caller.
pub trait Notifier {
    fn send_notification(&self, message: String) -> Result<(), NotifierError>;
}

/// An opaque delivery failure, carrying a human-readable description.
#[derive(Debug)]
pub struct NotifierError {
    message: String,
}

impl View for NotifierError {
    type V = Seq<char>;

    closed spec fn view(&self) -> Seq<char> {
        self.message@
    }
}

impl NotifierError {
    /// Wraps a delivery failure's description.
    pub fn new(message: String) -> (r: NotifierError)
        ensures
            r@ == message@,
    {
        NotifierError { message }
    }

    /// The human-readable message for this error.
    pub fn to_message(&self) -> (r: String)
        ensures
            r@ == "Error while sending a notification: "@ + self@,
    {
        String::from_str("Error while sending a notification: ").concat(self.message.as_str())
    }
}

/// The key-value properties of one desktop notification: a fixed title
/// and priority, and the message as body.
pub open spec fn spec_notification_properties(message: Seq<char>) -> Seq<(Seq<char>, Seq<char>)> {
    seq![("title"@, "Remember B-Day"@), ("body"@, message), ("priority"@, "low"@)]
}

/// The key-value properties a desktop notification for `message`
/// carries, for a caller to hand to its notification service.
pub fn notification_properties(message: String) -> (r: Vec<(String, String)>)
    ensures
        r.deep_view() == spec_notification_properties(message@),
{
    let mut r: Vec<(String, String)> = Vec::new();
    r.push((String::from_str("title"), String::from_str("Remember B-Day")));
    r.push((String::from_str("body"), message));
    r.push((String::from_str("priority"), String::from_str("low")));
    proof {
        assert(r.deep_view() =~= spec_notification_properties(r@[1].1@));
    }
    r
}

} // verus!
