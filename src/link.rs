use vstd::prelude::*;

use crate::error::{Error, ErrorKind};

verus! {

/// The interface whose `PropertiesChanged` signal reports a link's new state.
pub const PROPERTIES_INTERFACE: &'static str = "org.freedesktop.DBus.Properties";

/// The state fields that the network service reports for one link.
#[derive(Debug)]
pub struct LinkDetails {
    pub administrative_state: String,
    pub operational_state: String,
    pub carrier_state: String,
    pub address_state: String,
    pub ipv4_address_state: String,
    pub ipv6_address_state: String,
}

/// One entry of the network service's link listing.
#[derive(Debug)]
pub struct LinkEntry {
    /// The link's index.
    pub index: i32,
    /// The interface name, such as `wlan0`.
    pub name: String,
    /// The bus object path of the link.
    pub path: String,
}

/// The type of a bus message.
#[derive(Clone, Copy, Debug, PartialEq, Eq, Structural)]
pub enum MessageKind {
    Invalid,
    MethodCall,
    MethodReturn,
    Error,
    Signal,
}

/// What the event source reads of a bus message.
#[derive(Debug)]
pub struct Notification {
    pub kind: MessageKind,
    /// The interface that the message names, if any.
    pub interface: Option<String>,
    /// The object path of the message, if any.
    pub path: Option<String>,
}

/// A link's state change, as the broker dispatches it.
#[derive(Debug)]
pub struct LinkEvent {
    /// The interface name.
    pub iface: String,
    /// The new operational state; never empty.
    pub state: String,
    /// Where the event came from, for diagnostics.
    pub path: String,
    pub link_details: LinkDetails,
    /// The link's description as the service returned it, passed on to scripts.
    pub link_details_json: String,
}

/// The result of checking a notification: its object path, or why it is refused.
/// The checks come in order: the message type, the interface, the path.
pub open spec fn notification_check(n: Notification) -> Result<Seq<char>, ErrorKind> {
    if n.kind != MessageKind::Signal {
        Err(ErrorKind::NotSignal)
    } else if !(n.interface matches Some(i) && i@ == PROPERTIES_INTERFACE@) {
        Err(ErrorKind::WrongInterface)
    } else if n.path is None {
        Err(ErrorKind::MissingPath)
    } else {
        Ok(n.path.unwrap()@)
    }
}

/// A listing position whose link has the object path `path`, the first one.
pub open spec fn first_link_with_path(links: Seq<LinkEntry>, path: Seq<char>, i: int) -> bool {
    &&& 0 <= i < links.len()
    &&& links[i].path@ == path
    &&& forall|j: int| 0 <= j < i ==> links[j].path@ != path
}

/// The event for a link whose description was read, or `None` where it could
/// not be read or names no operational state.
pub open spec fn event_of(
    link: LinkEntry,
    path: String,
    details: Option<LinkDetails>,
    raw: String,
) -> Option<LinkEvent> {
    match details {
        Some(d) => if d.operational_state@.len() > 0 {
            Some(
                LinkEvent {
                    iface: link.name,
                    state: d.operational_state,
                    path: path,
                    link_details: d,
                    link_details_json: raw,
                },
            )
        } else {
            None
        },
        None => None,
    }
}

impl LinkEvent {
    /// Checks that a bus message is a property-change signal with an object
    /// path, and returns that path.
    pub fn notification_path(n: &Notification) -> (r: Result<String, Error>)
        ensures
            r matches Ok(p) ==> notification_check(*n) == Ok::<Seq<char>, ErrorKind>(p@),
            r matches Err(e) ==> notification_check(*n) == Err::<Seq<char>, ErrorKind>(e.kind),
    {
        if n.kind != MessageKind::Signal {
            return Err(Error::new(ErrorKind::NotSignal, String::new()));
        }
        let expected = PROPERTIES_INTERFACE.to_string();
        match &n.interface {
            Some(i) => {
                if *i != expected {
                    return Err(Error::new(ErrorKind::WrongInterface, i.clone()));
                }
            },
            None => {
                return Err(Error::new(ErrorKind::WrongInterface, String::new()));
            },
        }
        match &n.path {
            Some(p) => Ok(p.clone()),
            None => Err(Error::new(ErrorKind::MissingPath, String::new())),
        }
    }

    /// Finds the link whose object path is `path` in the service's listing.
    pub fn link_from_path<'a>(path: &String, links: &'a Vec<LinkEntry>) -> (r: Result<
        &'a LinkEntry,
        Error,
    >)
        ensures
            r matches Ok(l) ==> exists|i: int|
                first_link_with_path(links@, path@, i) && *l == links@[i],
            r matches Err(e) ==> e.kind == ErrorKind::UnknownLink && forall|i: int|
                0 <= i < links@.len() ==> links@[i].path@ != path@,
    {
        let n = links.len();
        let mut i: usize = 0;
        while i < n
            invariant
                n == links@.len(),
                0 <= i <= n,
                forall|j: int| 0 <= j < i ==> links@[j].path@ != path@,
            decreases n - i,
        {
            if links[i].path == *path {
                assert(first_link_with_path(links@, path@, i as int));
                return Ok(&links[i]);
            }
            i = i + 1;
        }
        Err(Error::new(ErrorKind::UnknownLink, path.clone()))
    }

    /// Builds the event of `link` from its description: `details` is what could
    /// be read of `raw`, `None` where it could not.
    pub fn new(link: &LinkEntry, path: String, details: Option<LinkDetails>, raw: String) -> (r:
        Result<LinkEvent, Error>)
        ensures
            r matches Ok(ev) ==> event_of(*link, path, details, raw) == Some(ev),
            r matches Err(e) ==> e.kind == ErrorKind::AttributeParseFailed && event_of(
                *link,
                path,
                details,
                raw,
            ) is None,
    {
        match details {
            Some(d) => {
                if d.operational_state.as_str().unicode_len() == 0 {
                    return Err(Error::new(ErrorKind::AttributeParseFailed, link.name.clone()));
                }
                let state = d.operational_state.clone();
                Ok(
                    LinkEvent {
                        iface: link.name.clone(),
                        state,
                        path,
                        link_details: d,
                        link_details_json: raw,
                    },
                )
            },
            None => Err(Error::new(ErrorKind::AttributeParseFailed, link.name.clone())),
        }
    }

    /// `<interface> --> <state>`, for diagnostics.
    pub fn to_text(&self) -> (r: String)
        ensures
            r@ == self.iface@ + " --> "@ + self.state@,
    {
        let mut r = self.iface.clone();
        r.append(" --> ");
        r.append(self.state.as_str());
        r
    }
}

} // verus!
