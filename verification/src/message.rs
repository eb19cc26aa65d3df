//! Device-change messages, parsed from the host's broadcast codes.
//!
//! The notification hub's hidden window receives device-change messages; each
//! carries an event code and, for port-type broadcasts, the port name.  The
//! embedding program extracts those two plain values from the raw broadcast
//! record; turning them into a [`DeviceEvent`] happens here.

use vstd::prelude::*;

verus! {

/// Host broadcast code: a device has arrived.
pub const DEVICE_ARRIVAL: u32 = 0x8000;

/// Host broadcast code: permission to remove a device is requested.
pub const DEVICE_QUERY_REMOVE: u32 = 0x8001;

/// Host broadcast code: a request to remove a device was denied.
pub const DEVICE_QUERY_REMOVE_FAILED: u32 = 0x8002;

/// Host broadcast code: a device is about to be removed.
pub const DEVICE_REMOVE_PENDING: u32 = 0x8003;

/// Host broadcast code: a device has been removed.
pub const DEVICE_REMOVE_COMPLETE: u32 = 0x8004;

/// Host broadcast code: a device-specific custom event.
pub const DEVICE_CUSTOM_EVENT: u32 = 0x8006;

/// The kind of a device-change message.
#[derive(Debug, Copy, Clone, PartialEq, Eq, Structural)]
pub enum DeviceEventType {
    Arrival,
    RemoveComplete,
    QueryRemove,
    QueryRemoveComplete,
    RemovePending,
    CustomEvent,
}

/// The kind a broadcast code denotes, if any.
pub open spec fn event_type_of_code(code: u32) -> Option<DeviceEventType> {
    if code == DEVICE_ARRIVAL {
        Some(DeviceEventType::Arrival)
    } else if code == DEVICE_REMOVE_COMPLETE {
        Some(DeviceEventType::RemoveComplete)
    } else if code == DEVICE_QUERY_REMOVE {
        Some(DeviceEventType::QueryRemove)
    } else if code == DEVICE_QUERY_REMOVE_FAILED {
        Some(DeviceEventType::QueryRemoveComplete)
    } else if code == DEVICE_REMOVE_PENDING {
        Some(DeviceEventType::RemovePending)
    } else if code == DEVICE_CUSTOM_EVENT {
        Some(DeviceEventType::CustomEvent)
    } else {
        None
    }
}

impl DeviceEventType {
    /// Parse a broadcast code; codes this runtime does not know yield `None`
    /// and the message is left to the host's default handling.
    pub fn from_code(code: u32) -> (r: Option<DeviceEventType>)
        ensures
            r == event_type_of_code(code),
    {
        if code == DEVICE_ARRIVAL {
            Some(DeviceEventType::Arrival)
        } else if code == DEVICE_REMOVE_COMPLETE {
            Some(DeviceEventType::RemoveComplete)
        } else if code == DEVICE_QUERY_REMOVE {
            Some(DeviceEventType::QueryRemove)
        } else if code == DEVICE_QUERY_REMOVE_FAILED {
            Some(DeviceEventType::QueryRemoveComplete)
        } else if code == DEVICE_REMOVE_PENDING {
            Some(DeviceEventType::RemovePending)
        } else if code == DEVICE_CUSTOM_EVENT {
            Some(DeviceEventType::CustomEvent)
        } else {
            None
        }
    }
}

/// The payload of a device-change message.  Only port-type broadcasts carry
/// data this runtime reads — the port name; the other broadcast payloads
/// pass through as bare tags.
#[derive(Debug, Clone, PartialEq, Eq)]
pub enum DeviceEventData {
    /// A class-of-devices broadcast.
    Interface,
    /// A file-system-handle broadcast.
    Handle,
    /// A vendor-defined broadcast.
    Oem,
    /// A modem, serial or parallel port, by name.
    Port(String),
    /// A logical-volume broadcast.
    Volume,
}

/// One device-change message: its kind and its payload.
#[derive(Debug, Clone, PartialEq, Eq)]
pub struct DeviceEvent {
    pub ty: DeviceEventType,
    pub data: DeviceEventData,
}

impl DeviceEvent {
    /// Parse a device-change message from its broadcast code and, for a
    /// port-type broadcast, the port name: exactly the known codes paired
    /// with a port payload yield an event.
    pub fn try_parse(event_type: u32, port: Option<String>) -> (r: Option<DeviceEvent>)
        ensures
            match (event_type_of_code(event_type), port) {
                (Some(ty), Some(name)) => r == Some(
                    DeviceEvent { ty, data: DeviceEventData::Port(name) },
                ),
                _ => r is None,
            },
    {
        match (DeviceEventType::from_code(event_type), port) {
            (Some(ty), Some(name)) => Some(DeviceEvent { ty, data: DeviceEventData::Port(name) }),
            _ => None,
        }
    }

    /// Keep only the port name of an arrival; any other message is handed
    /// back unchanged.
    pub fn filter_port_arrival(self) -> (r: Result<String, DeviceEvent>)
        ensures
            match self {
                DeviceEvent { ty: DeviceEventType::Arrival, data: DeviceEventData::Port(port) } => r
                    == Ok::<String, DeviceEvent>(port),
                _ => r == Err::<String, DeviceEvent>(self),
            },
    {
        match self {
            DeviceEvent { ty: DeviceEventType::Arrival, data: DeviceEventData::Port(port) } => Ok(
                port,
            ),
            other => Err(other),
        }
    }
}

} // verus!
