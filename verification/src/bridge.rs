//! Best-effort firewalld integration over the D-Bus system bus.
//!
//! When firewalld runs with a strict default zone it would block the traffic
//! this driver's rules allow, so network setup registers the subnet as a
//! source of the trusted zone and a complete teardown unregisters it.  The
//! bridge is optional: every failure — no bus, no firewalld, a rejected call —
//! is swallowed, and the driver's own outcome never depends on it.
use vstd::prelude::*;

use crate::types::Subnet;

verus! {

/// D-Bus connection type of the zbus crate, opaque to this library.
#[verifier::external_type_specification]
#[verifier::external_body]
pub struct ExZbusConnection(zbus::Connection);

/// Relies on zbus::Connection::system, driven to completion with
/// futures::executor::block_on: opens a connection to the system bus;
/// None when the bus cannot be reached.
#[verifier::external_body]
fn system_bus() -> (r: Option<zbus::Connection>) {
    futures::executor::block_on(zbus::Connection::system()).ok()
}

/// Relies on zbus::Connection::call_method, driven to completion with
/// futures::executor::block_on: asks the bus for the owner of firewalld's
/// well-known name; true exactly when the call got a reply.
#[verifier::external_body]
fn is_firewalld_running(conn: &zbus::Connection) -> (r: bool) {
    futures::executor::block_on(conn.call_method(
        Some("org.freedesktop.DBus"),
        "/org/freedesktop/DBus",
        Some("org.freedesktop.DBus"),
        "GetNameOwner",
        &"org.fedoraproject.FirewallD1",
    ))
    .is_ok()
}

/// Relies on zbus::Connection::call_method, driven to completion with
/// futures::executor::block_on: invokes one firewalld zone method with a zone
/// and a source argument; the reply itself is discarded.
#[verifier::external_body]
fn zone_call(conn: &zbus::Connection, method: &str, zone: &str, source: &str) -> (r: Result<
    (),
    String,
>) {
    match futures::executor::block_on(conn.call_method(
        Some("org.fedoraproject.FirewallD1"),
        "/org/fedoraproject/FirewallD1",
        Some("org.fedoraproject.FirewallD1.zone"),
        method,
        &(zone, source),
    )) {
        Ok(_) => Ok(()),
        Err(e) => Err(e.to_string()),
    }
}

/// If firewalld is reachable, registers the subnet as a source of the
/// trusted zone.  Best effort: a missing bus, a missing firewalld or a
/// rejected call changes nothing for the caller.
pub fn add_firewalld_if_possible(net: &Subnet) {
    let conn = match system_bus() {
        Some(c) => c,
        None => {
            return ;
        },
    };
    if !is_firewalld_running(&conn) {
        return ;
    }
    match zone_call(&conn, "addSource", "trusted", net.cidr.as_str()) {
        Ok(()) => {},
        Err(_) => {},
    }
}

/// If firewalld is reachable, unregisters the subnet from the trusted zone.
/// Best effort, as in [`add_firewalld_if_possible`].
pub fn rm_firewalld_if_possible(net: &Subnet) {
    let conn = match system_bus() {
        Some(c) => c,
        None => {
            return ;
        },
    };
    if !is_firewalld_running(&conn) {
        return ;
    }
    match zone_call(&conn, "removeSource", "trusted", net.cidr.as_str()) {
        Ok(()) => {},
        Err(_) => {},
    }
}

} // verus!
