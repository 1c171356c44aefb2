//! Socket addresses, and the form the kernel has them in.

use crate::error::{Error, ErrorKind};
use vstd::prelude::*;

verus! {

/// `libc::AF_INET` on Linux.
pub const AF_INET: i32 = 2;

/// `libc::AF_INET6` on Linux.
pub const AF_INET6: i32 = 10;

/// `AF_INET` on Windows.
pub const WIN_AF_INET: i32 = 2;

/// `AF_INET6` on Windows.
pub const WIN_AF_INET6: i32 = 23;

/// The size of `sockaddr_in`, on Linux and on Windows.
pub const SOCKADDR_IN_LEN: u32 = 16;

/// The size of `sockaddr_in6`, on Linux and on Windows.
pub const SOCKADDR_IN6_LEN: u32 = 28;

/// An internet address and a port.
#[derive(Debug, Clone, Copy, PartialEq, Eq)]
pub enum SocketAddr {
    V4([u8; 4], u16),
    V6 { ip: [u8; 16], port: u16, flowinfo: u32, scope_id: u32 },
}

/// An address as the system has it: port and addresses as bytes in the order they are sent in.
/// Only the fields of the family count.
#[derive(Debug, Clone, Copy, PartialEq, Eq)]
pub struct RawAddr {
    pub family: i32,
    pub len: u32,
    pub port: [u8; 2],
    pub v4: [u8; 4],
    pub v6: [u8; 16],
    pub flowinfo: u32,
    pub scope_id: u32,
}

/// The port of two bytes, the first of which counts more.
pub open spec fn port_of(bytes: [u8; 2]) -> int {
    bytes[0] * 256 + bytes[1]
}

/// The address that the form of a system with these families stands for.
pub open spec fn address_in(raw: RawAddr, inet: i32, inet6: i32) -> Result<SocketAddr, Error> {
    if raw.family == inet {
        Ok(SocketAddr::V4(raw.v4, port_of(raw.port) as u16))
    } else if raw.family == inet6 {
        Ok(
            SocketAddr::V6 {
                ip: raw.v6,
                port: port_of(raw.port) as u16,
                flowinfo: raw.flowinfo,
                scope_id: raw.scope_id,
            },
        )
    } else {
        Err(Error::Custom(ErrorKind::InvalidData, "unsupported socket family"))
    }
}

/// The address that Linux' form stands for.
pub open spec fn address_of(raw: RawAddr) -> Result<SocketAddr, Error> {
    address_in(raw, AF_INET, AF_INET6)
}

/// The address that Windows' form stands for.
pub open spec fn windows_address_of(raw: RawAddr) -> Result<SocketAddr, Error> {
    address_in(raw, WIN_AF_INET, WIN_AF_INET6)
}

/// The address that Linux' form stands for. Families other than the internet's are refused.
pub fn sockaddr_storage_to_socketaddr(raw: &RawAddr) -> (r: Result<SocketAddr, Error>)
    ensures
        r == address_of(*raw),
        raw.family == AF_INET ==> (r matches Ok(SocketAddr::V4(ip, port)) && ip == raw.v4 && port
            == raw.port[0] * 256 + raw.port[1]),
        raw.family == AF_INET6 ==> (r matches Ok(SocketAddr::V6 { ip, port, flowinfo, scope_id })
            && ip == raw.v6 && port == raw.port[0] * 256 + raw.port[1] && flowinfo == raw.flowinfo
            && scope_id == raw.scope_id),
        raw.family != AF_INET && raw.family != AF_INET6 ==> r is Err,
{
    raw_to_address(raw, AF_INET, AF_INET6)
}

/// The address that Windows' form stands for. Families other than the internet's are refused.
pub fn windows_raw_to_socketaddr(raw: &RawAddr) -> (r: Result<SocketAddr, Error>)
    ensures
        r == windows_address_of(*raw),
        raw.family == WIN_AF_INET ==> (r matches Ok(SocketAddr::V4(ip, port)) && ip == raw.v4 && port
            == raw.port[0] * 256 + raw.port[1]),
        raw.family == WIN_AF_INET6 ==> (r matches Ok(
            SocketAddr::V6 { ip, port, flowinfo, scope_id },
        ) && ip == raw.v6 && port == raw.port[0] * 256 + raw.port[1] && flowinfo == raw.flowinfo
            && scope_id == raw.scope_id),
        raw.family != WIN_AF_INET && raw.family != WIN_AF_INET6 ==> r is Err,
{
    raw_to_address(raw, WIN_AF_INET, WIN_AF_INET6)
}

fn raw_to_address(raw: &RawAddr, inet: i32, inet6: i32) -> (r: Result<SocketAddr, Error>)
    ensures
        r == address_in(*raw, inet, inet6),
{
    let port: u16 = raw.port[0] as u16 * 256 + raw.port[1] as u16;
    if raw.family == inet {
        Ok(SocketAddr::V4(raw.v4, port))
    } else if raw.family == inet6 {
        Ok(
            SocketAddr::V6 {
                ip: raw.v6,
                port,
                flowinfo: raw.flowinfo,
                scope_id: raw.scope_id,
            },
        )
    } else {
        Err(Error::Custom(ErrorKind::InvalidData, "unsupported socket family"))
    }
}

/// Windows' form of an address.
pub fn windows_socket_addr_to_raw(address: SocketAddr) -> (raw: RawAddr)
    ensures
        windows_address_of(raw) == Ok::<SocketAddr, Error>(address),
        match address {
            SocketAddr::V4(_, _) => raw.family == WIN_AF_INET && raw.len == SOCKADDR_IN_LEN,
            SocketAddr::V6 { .. } => raw.family == WIN_AF_INET6 && raw.len == SOCKADDR_IN6_LEN,
        },
        match address {
            SocketAddr::V4(ip, port) => raw.v4 == ip && raw.port[0] == port / 256 && raw.port[1]
                == port % 256,
            SocketAddr::V6 { ip, port, flowinfo, scope_id } => raw.v6 == ip && raw.port[0] == port
                / 256 && raw.port[1] == port % 256 && raw.flowinfo == flowinfo && raw.scope_id
                == scope_id,
        },
{
    let raw = socket_addr_to_raw(address);
    let family: i32 = match address {
        SocketAddr::V4(_, _) => WIN_AF_INET,
        SocketAddr::V6 { .. } => WIN_AF_INET6,
    };
    RawAddr {
        family,
        len: raw.len,
        port: raw.port,
        v4: raw.v4,
        v6: raw.v6,
        flowinfo: raw.flowinfo,
        scope_id: raw.scope_id,
    }
}

/// Linux' form of an address.
pub fn socket_addr_to_raw(address: SocketAddr) -> (raw: RawAddr)
    ensures
        address_of(raw) == Ok::<SocketAddr, Error>(address),
        match address {
            SocketAddr::V4(_, _) => raw.family == AF_INET && raw.len == SOCKADDR_IN_LEN,
            SocketAddr::V6 { .. } => raw.family == AF_INET6 && raw.len == SOCKADDR_IN6_LEN,
        },
        match address {
            SocketAddr::V4(ip, port) => raw.v4 == ip && raw.port[0] == port / 256 && raw.port[1]
                == port % 256,
            SocketAddr::V6 { ip, port, flowinfo, scope_id } => raw.v6 == ip && raw.port[0] == port
                / 256 && raw.port[1] == port % 256 && raw.flowinfo == flowinfo && raw.scope_id
                == scope_id,
        },
{
    match address {
        SocketAddr::V4(ip, port) => RawAddr {
            family: AF_INET,
            len: SOCKADDR_IN_LEN,
            port: [(port / 256) as u8, (port % 256) as u8],
            v4: ip,
            v6: [0;16],
            flowinfo: 0,
            scope_id: 0,
        },
        SocketAddr::V6 { ip, port, flowinfo, scope_id } => RawAddr {
            family: AF_INET6,
            len: SOCKADDR_IN6_LEN,
            port: [(port / 256) as u8, (port % 256) as u8],
            v4: [0;4],
            v6: ip,
            flowinfo,
            scope_id,
        },
    }
}

/// An address is read out of the form just as it is there, the port by its first byte as the one that
/// counts more. Families other than the internet's stand for no address.
pub proof fn law_a_form_is_read_as_it_is(raw: RawAddr, inet: i32, inet6: i32)
    requires
        inet != inet6,
    ensures
        address_in(raw, inet, inet6) is Ok <==> raw.family == inet || raw.family == inet6,
        raw.family == inet ==> match address_in(raw, inet, inet6) {
            Ok(SocketAddr::V4(ip, port)) => ip == raw.v4 && port / 256 == raw.port[0] && port % 256
                == raw.port[1],
            _ => false,
        },
        raw.family == inet6 ==> match address_in(raw, inet, inet6) {
            Ok(SocketAddr::V6 { ip, port, flowinfo, scope_id }) => {
                &&& ip == raw.v6
                &&& port / 256 == raw.port[0] && port % 256 == raw.port[1]
                &&& flowinfo == raw.flowinfo && scope_id == raw.scope_id
            },
            _ => false,
        },
        address_of(raw) is Ok <==> raw.family == 2 || raw.family == 10,
        windows_address_of(raw) is Ok <==> raw.family == 2 || raw.family == 23,
        raw.family == 2 ==> address_of(raw) == windows_address_of(raw),
        raw.family == 2 ==> address_of(raw)->Ok_0 is V4,
        raw.family == 10 ==> address_of(raw)->Ok_0 is V6,
        raw.family == 23 ==> windows_address_of(raw)->Ok_0 is V6,
{
}

} // verus!
