//! The verified side of the Windows toast notifier: the application
//! identity it is created with, and the toast XML payload each message
//! becomes. Showing the toast is platform work that stays with the
//! caller.
use vstd::prelude::*;
use vstd::string::*;

verus! {

/// The toast XML document that wraps a notification message.
pub open spec fn spec_toast_xml(message: Seq<char>) -> Seq<char> {
    "<toast duration='short'>\n                <visual>\n                    <binding template='ToastGeneric'>\n                        <text id='1'>"@
        + message
        + "</text>\n                    </binding>\n                </visual>\n            </toast>"@
}

/// A notifier for the Windows toast service, kept here as the
/// application identity it was created under; the platform-side service
/// handle is made by the caller that shows the toasts.
pub struct WindowsNotifier {
    pub app_id: String,
}

impl WindowsNotifier {
    /// A toast notifier under the given application identity.
    pub fn new(app_id: &str) -> (r: WindowsNotifier)
        ensures
            r.app_id@ == app_id@,
    {
        WindowsNotifier { app_id: String::from_str(app_id) }
    }

    /// The toast XML document that delivers `message`.
    pub fn toast_xml(&self, message: &str) -> (r: String)
        ensures
            r@ == spec_toast_xml(message@),
    {
        String::from_str(
            "<toast duration='short'>\n                <visual>\n                    <binding template='ToastGeneric'>\n                        <text id='1'>",
        ).concat(message).concat(
            "</text>\n                    </binding>\n                </visual>\n            </toast>",
        )
    }
}

} // verus!
