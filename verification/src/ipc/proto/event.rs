//! What the daemon tells unasked.
use vstd::prelude::*;

verus! {

#[derive(Debug, Clone, PartialEq)]
pub enum Payload {
    /// The devices have changed.
    DeviceUpdated(super::DeviceListData),
    /// What adb lists has changed.
    AdbUpdated(super::DeviceListData),
    /// The sessions have changed.
    SessionUpdated(super::SessionListData),
    /// The clipboard has changed.
    ClipboardChanged(super::ClipboardData),
    /// A device has a notification.
    Notification(super::NotificationData),
}

} // verus!
