//! The host side of a transaction: connection options, the serialized
//! request, the decisions of a dispatch with retries, and what a reply's
//! payload holds.

use crate::frame::{Bus, Format};
use crate::io::{same_bytes, Error, Read};
use crate::types::Type;
use vstd::prelude::*;
use vstd::slice::{slice_subrange, slice_to_vec};

verus! {

/// An IP address as its bytes in network order.
#[derive(Copy, Clone, Debug)]
pub enum IpAddress {
    V4([u8; 4]),
    V6([u8; 16]),
}

/// The address of one end of a datagram exchange. `flowinfo` and
/// `scope_id` belong to version 6 and are zero for version 4.
#[derive(Copy, Clone, Debug)]
pub struct SocketAddress {
    pub ip: IpAddress,
    pub port: u16,
    pub flowinfo: u32,
    pub scope_id: u32,
}

impl IpAddress {
    /// The address that stands for "any": version 4, all zero.
    pub open spec fn unspecified() -> IpAddress {
        IpAddress::V4([0u8, 0u8, 0u8, 0u8])
    }

    /// Whether `self` and `other` are the same address.
    pub fn same_as(&self, other: &IpAddress) -> (same: bool)
        ensures
            same == (*self == *other),
    {
        match (self, other) {
            (IpAddress::V4(a), IpAddress::V4(b)) => {
                let same = same_bytes(a.as_slice(), b.as_slice());
                assert(same == (a =~= b));
                same
            },
            (IpAddress::V6(a), IpAddress::V6(b)) => {
                let same = same_bytes(a.as_slice(), b.as_slice());
                assert(same == (a =~= b));
                same
            },
            _ => false,
        }
    }
}

impl SocketAddress {
    /// The address of `ip` and `port`, with nothing else set.
    pub open spec fn of(ip: IpAddress, port: u16) -> SocketAddress {
        SocketAddress { ip, port, flowinfo: 0, scope_id: 0 }
    }

    /// The address of `ip` and `port`, with nothing else set.
    pub fn new(ip: IpAddress, port: u16) -> (address: SocketAddress)
        ensures
            address == SocketAddress::of(ip, port),
    {
        SocketAddress { ip, port, flowinfo: 0, scope_id: 0 }
    }

    /// Whether `self` and `other` are the same address in every part.
    pub fn same_as(&self, other: &SocketAddress) -> (same: bool)
        ensures
            same == (*self == *other),
    {
        self.ip.same_as(&other.ip) && self.port == other.port && self.flowinfo == other.flowinfo
            && self.scope_id == other.scope_id
    }
}

/// What a transaction needs to know of its two ends and of its patience.
#[derive(Copy, Clone, Debug)]
pub struct ConnectionOptions {
    local_ip: Option<IpAddress>,
    local_port: Option<u16>,
    remote_ip: IpAddress,
    remote_port: u16,
    timeout_millis: u64,
    resend_attempts: u8,
    rx_buffer_size: usize,
}

/// The options as plain values.
pub struct ConnectionOptionsView {
    pub local_ip: Option<IpAddress>,
    pub local_port: Option<u16>,
    pub remote_ip: IpAddress,
    pub remote_port: u16,
    pub timeout_millis: u64,
    pub resend_attempts: u8,
    pub rx_buffer_size: usize,
}

impl ConnectionOptionsView {
    /// Where the socket is bound: any address and a port of the system's
    /// choice unless the options say otherwise.
    pub open spec fn local_address(self) -> SocketAddress {
        SocketAddress::of(
            match self.local_ip {
                Some(ip) => ip,
                None => IpAddress::unspecified(),
            },
            match self.local_port {
                Some(port) => port,
                None => 0,
            },
        )
    }

    /// Where requests go and where replies must come from.
    pub open spec fn remote_address(self) -> SocketAddress {
        SocketAddress::of(self.remote_ip, self.remote_port)
    }
}

impl View for ConnectionOptions {
    type V = ConnectionOptionsView;

    closed spec fn view(&self) -> ConnectionOptionsView {
        ConnectionOptionsView {
            local_ip: self.local_ip,
            local_port: self.local_port,
            remote_ip: self.remote_ip,
            remote_port: self.remote_port,
            timeout_millis: self.timeout_millis,
            resend_attempts: self.resend_attempts,
            rx_buffer_size: self.rx_buffer_size,
        }
    }
}

impl ConnectionOptions {
    #[verifier::type_invariant]
    spec fn at_least_one_attempt(&self) -> bool {
        self.resend_attempts >= 1
    }

    pub fn local_address(&self) -> (address: SocketAddress)
        ensures
            address == self@.local_address(),
    {
        let ip = match self.local_ip {
            Some(ip) => ip,
            None => IpAddress::V4([0, 0, 0, 0]),
        };
        let port = match self.local_port {
            Some(port) => port,
            None => 0,
        };
        SocketAddress::new(ip, port)
    }

    pub fn remote_address(&self) -> (address: SocketAddress)
        ensures
            address == self@.remote_address(),
    {
        SocketAddress::new(self.remote_ip, self.remote_port)
    }

    /// The address that the socket is bound to, if one is set.
    pub fn local_ip(&self) -> (ip: Option<IpAddress>)
        ensures
            ip == self@.local_ip,
    {
        self.local_ip
    }

    /// The port that the socket is bound to, if one is set.
    pub fn local_port(&self) -> (port: Option<u16>)
        ensures
            port == self@.local_port,
    {
        self.local_port
    }

    /// The address of the device.
    pub fn remote_ip(&self) -> (ip: IpAddress)
        ensures
            ip == self@.remote_ip,
    {
        self.remote_ip
    }

    /// The port of the device.
    pub fn remote_port(&self) -> (port: u16)
        ensures
            port == self@.remote_port,
    {
        self.remote_port
    }

    /// How long one attempt waits for a reply, in milliseconds.
    pub fn timeout_millis(&self) -> (millis: u64)
        ensures
            millis == self@.timeout_millis,
    {
        self.timeout_millis
    }

    /// How often the request is sent before the transaction gives up.
    pub fn resend_attempts(&self) -> (attempts: u8)
        ensures
            attempts == self@.resend_attempts,
            attempts >= 1,
    {
        proof {
            use_type_invariant(self);
        }
        self.resend_attempts
    }

    /// The size of the buffer that a reply is received into.
    pub fn rx_buffer_size(&self) -> (size: usize)
        ensures
            size == self@.rx_buffer_size,
    {
        self.rx_buffer_size
    }
}

/// Why a set of options could not be built.
#[derive(Copy, Clone, Debug)]
pub enum ConnectionOptionsBuilderError {
    /// A field without a default was never set; the name is the field's.
    UninitializedField(&'static str),
    /// A field was set to a value that it cannot have; the name is the
    /// field's.
    ValidationError(&'static str),
}

/// Collects connection options field by field. Every field but the
/// remote address has a default.
#[derive(Copy, Clone, Debug)]
pub struct ConnectionOptionsBuilder {
    pub local_ip: Option<IpAddress>,
    pub local_port: Option<u16>,
    pub remote_ip: Option<IpAddress>,
    pub remote_port: Option<u16>,
    pub timeout_millis: Option<u64>,
    pub resend_attempts: Option<u8>,
    pub rx_buffer_size: Option<usize>,
}

/// The port that devices listen on.
pub const DEFAULT_REMOTE_PORT: u16 = 51;

/// How long an attempt waits for a reply unless the options say otherwise.
pub const DEFAULT_TIMEOUT_MILLIS: u64 = 2000;

/// How often a request is sent unless the options say otherwise.
pub const DEFAULT_RESEND_ATTEMPTS: u8 = 3;

/// The size of the receive buffer unless the options say otherwise.
pub const DEFAULT_RX_BUFFER_SIZE: usize = 1024;

impl Default for ConnectionOptionsBuilder {
    fn default() -> (builder: Self)
        ensures
            builder == ConnectionOptionsBuilder::empty(),
    {
        ConnectionOptionsBuilder {
            local_ip: None,
            local_port: None,
            remote_ip: None,
            remote_port: None,
            timeout_millis: None,
            resend_attempts: None,
            rx_buffer_size: None,
        }
    }
}

impl ConnectionOptionsBuilder {
    /// The builder in which nothing is set.
    pub open spec fn empty() -> ConnectionOptionsBuilder {
        ConnectionOptionsBuilder {
            local_ip: None,
            local_port: None,
            remote_ip: None,
            remote_port: None,
            timeout_millis: None,
            resend_attempts: None,
            rx_buffer_size: None,
        }
    }

    /// The options that this builder stands for, each unset field at its
    /// default, where the remote address is set and at least one attempt
    /// is allowed.
    pub open spec fn built(self) -> ConnectionOptionsView
        recommends
            self.remote_ip is Some,
    {
        ConnectionOptionsView {
            local_ip: self.local_ip,
            local_port: self.local_port,
            remote_ip: self.remote_ip->Some_0,
            remote_port: match self.remote_port {
                Some(port) => port,
                None => DEFAULT_REMOTE_PORT,
            },
            timeout_millis: match self.timeout_millis {
                Some(millis) => millis,
                None => DEFAULT_TIMEOUT_MILLIS,
            },
            resend_attempts: match self.resend_attempts {
                Some(attempts) => attempts,
                None => DEFAULT_RESEND_ATTEMPTS,
            },
            rx_buffer_size: match self.rx_buffer_size {
                Some(size) => size,
                None => DEFAULT_RX_BUFFER_SIZE,
            },
        }
    }

    pub fn local_ip(self, value: IpAddress) -> (builder: Self)
        ensures
            builder == (ConnectionOptionsBuilder { local_ip: Some(value), ..self }),
    {
        ConnectionOptionsBuilder { local_ip: Some(value), ..self }
    }

    pub fn local_port(self, value: u16) -> (builder: Self)
        ensures
            builder == (ConnectionOptionsBuilder { local_port: Some(value), ..self }),
    {
        ConnectionOptionsBuilder { local_port: Some(value), ..self }
    }

    pub fn remote_ip(self, value: IpAddress) -> (builder: Self)
        ensures
            builder == (ConnectionOptionsBuilder { remote_ip: Some(value), ..self }),
    {
        ConnectionOptionsBuilder { remote_ip: Some(value), ..self }
    }

    pub fn remote_port(self, value: u16) -> (builder: Self)
        ensures
            builder == (ConnectionOptionsBuilder { remote_port: Some(value), ..self }),
    {
        ConnectionOptionsBuilder { remote_port: Some(value), ..self }
    }

    /// Sets how long one attempt waits for a reply, in milliseconds.
    pub fn timeout(self, millis: u64) -> (builder: Self)
        ensures
            builder == (ConnectionOptionsBuilder { timeout_millis: Some(millis), ..self }),
    {
        ConnectionOptionsBuilder { timeout_millis: Some(millis), ..self }
    }

    pub fn resend_attempts(self, value: u8) -> (builder: Self)
        ensures
            builder == (ConnectionOptionsBuilder { resend_attempts: Some(value), ..self }),
    {
        ConnectionOptionsBuilder { resend_attempts: Some(value), ..self }
    }

    pub fn rx_buffer_size(self, value: usize) -> (builder: Self)
        ensures
            builder == (ConnectionOptionsBuilder { rx_buffer_size: Some(value), ..self }),
    {
        ConnectionOptionsBuilder { rx_buffer_size: Some(value), ..self }
    }

    /// Sets the remote address to the first of the addresses that a lookup
    /// of the host's name returned, and unsets it where the lookup
    /// returned none.
    pub fn remote_host(self, resolved: &[IpAddress]) -> (builder: Self)
        ensures
            builder == (ConnectionOptionsBuilder {
                remote_ip: if resolved@.len() > 0 {
                    Some(resolved@[0])
                } else {
                    None
                },
                ..self
            }),
    {
        ConnectionOptionsBuilder {
            remote_ip: if resolved.len() > 0 {
                Some(resolved[0])
            } else {
                None
            },
            ..self
        }
    }

    /// The options, or the reason why there are none: the remote address
    /// was never set, or no attempt is allowed.
    pub fn build(&self) -> (r: Result<ConnectionOptions, ConnectionOptionsBuilderError>)
        ensures
            self.remote_ip is None ==> (r matches Err(
                ConnectionOptionsBuilderError::UninitializedField(name),
            ) && name@ == "remote_ip"@),
            self.remote_ip is Some && self.resend_attempts == Some(0u8) ==> (r matches Err(
                ConnectionOptionsBuilderError::ValidationError(name),
            ) && name@ == "resend_attempts"@),
            self.remote_ip is Some && self.resend_attempts != Some(0u8) ==> (r matches Ok(
                options,
            ) && options@ == self.built()),
    {
        let remote_ip = match self.remote_ip {
            Some(ip) => ip,
            None => return Err(ConnectionOptionsBuilderError::UninitializedField("remote_ip")),
        };
        let resend_attempts = match self.resend_attempts {
            Some(attempts) => attempts,
            None => DEFAULT_RESEND_ATTEMPTS,
        };
        if resend_attempts == 0 {
            return Err(ConnectionOptionsBuilderError::ValidationError("resend_attempts"));
        }
        Ok(
            ConnectionOptions {
                local_ip: self.local_ip,
                local_port: self.local_port,
                remote_ip,
                remote_port: match self.remote_port {
                    Some(port) => port,
                    None => DEFAULT_REMOTE_PORT,
                },
                timeout_millis: match self.timeout_millis {
                    Some(millis) => millis,
                    None => DEFAULT_TIMEOUT_MILLIS,
                },
                resend_attempts,
                rx_buffer_size: match self.rx_buffer_size {
                    Some(size) => size,
                    None => DEFAULT_RX_BUFFER_SIZE,
                },
            },
        )
    }
}

/// A device on a 1-Wire bus, as the `onewire` crate has it: its 8-byte
/// address.
#[verifier::external_type_specification]
pub struct ExDevice(onewire::Device);

/// A fresh request id: `read` on `random::default()`, the thread's shared
/// source of the `random` crate. Nothing is claimed of the value.
#[verifier::external_body]
fn fresh_request_id() -> (id: u8) {
    random::Source::read(&mut random::default())
}

/// The addresses in one line, each with its 8 bytes, in order.
pub open spec fn concatenated(addresses: Seq<[u8; 8]>) -> Seq<u8>
    decreases addresses.len(),
{
    if addresses.len() == 0 {
        Seq::<u8>::empty()
    } else {
        concatenated(addresses.drop_last()) + addresses.last()@
    }
}

/// The addresses of the devices, in order.
pub open spec fn addresses_of(devices: Seq<onewire::Device>) -> Seq<[u8; 8]> {
    Seq::new(devices.len(), |i: int| devices[i].address)
}

/// A request as it is sent: the frame, its bytes with what follows the
/// frame, and the options of the connection it is for.
#[derive(Debug)]
pub struct Request {
    connection_options: ConnectionOptions,
    request: crate::frame::Request,
    serialized: Vec<u8>,
}

/// A request as plain values.
pub struct RequestView {
    pub connection_options: ConnectionOptionsView,
    pub request: crate::frame::Request,
    pub serialized: Seq<u8>,
}

impl View for Request {
    type V = RequestView;

    closed spec fn view(&self) -> RequestView {
        RequestView {
            connection_options: self.connection_options@,
            request: self.request,
            serialized: self.serialized@,
        }
    }
}

impl RequestView {
    /// The request that reads the devices with these addresses on the
    /// 1-Wire bus: the frame, followed at once by the addresses.
    pub open spec fn onewire_read(
        options: ConnectionOptionsView,
        request_id: u8,
        addresses: Seq<[u8; 8]>,
    ) -> RequestView {
        let request = crate::frame::Request::ReadSpecified(request_id, Bus::OneWire);
        RequestView {
            connection_options: options,
            request,
            serialized: request.encoding() + concatenated(addresses),
        }
    }
}

impl Request {
    /// The frame of this request.
    pub fn request(&self) -> (request: crate::frame::Request)
        ensures
            request == self@.request,
    {
        self.request
    }

    /// The bytes that go on the wire.
    pub fn serialized(&self) -> (bytes: &[u8])
        ensures
            bytes@ == self@.serialized,
    {
        self.serialized.as_slice()
    }

    /// The options of the connection that this request is for.
    pub fn connection_options(&self) -> (options: &ConnectionOptions)
        ensures
            options@ == self@.connection_options,
    {
        &self.connection_options
    }
}

impl ConnectionOptions {
    /// The request that reads `devices` on the 1-Wire bus, under a fresh
    /// request id.
    pub fn new_onewire_read(&self, devices: &[onewire::Device]) -> (r: Result<Request, Error>)
        ensures
            r matches Ok(request) && exists|request_id: u8|
                request@ == RequestView::onewire_read(
                    self@,
                    request_id,
                    addresses_of(devices@),
                ),
    {
        let mut addresses: Vec<[u8; 8]> = Vec::new();
        let mut i: usize = 0;
        while i < devices.len()
            invariant
                i <= devices.len(),
                addresses@ =~= addresses_of(devices@).take(i as int),
            decreases devices.len() - i,
        {
            addresses.push(devices[i].address);
            i += 1;
        }
        assert(addresses@ =~= addresses_of(devices@));
        self.onewire_read_with_id(fresh_request_id(), addresses.as_slice())
    }

    /// The request that reads the devices with these addresses on the
    /// 1-Wire bus, under the given request id.
    pub fn onewire_read_with_id(&self, request_id: u8, addresses: &[[u8; 8]]) -> (r: Result<
        Request,
        Error,
    >)
        ensures
            r matches Ok(request) && request@ == RequestView::onewire_read(
                self@,
                request_id,
                addresses@,
            ),
    {
        let request = crate::frame::Request::ReadSpecified(request_id, Bus::OneWire);
        let mut binary: Vec<u8> = Vec::new();
        request.write(&mut binary)?;
        let mut i: usize = 0;
        assert(addresses@.take(0) =~= Seq::<[u8; 8]>::empty());
        assert(binary@ =~= request.encoding() + Seq::<u8>::empty());
        while i < addresses.len()
            invariant
                i <= addresses.len(),
                binary@ == request.encoding() + concatenated(addresses@.take(i as int)),
            decreases addresses.len() - i,
        {
            let address = &addresses[i];
            let ghost before = binary@;
            let mut j: usize = 0;
            while j < 8
                invariant
                    j <= 8,
                    binary@ =~= before + address@.take(j as int),
                decreases 8 - j,
            {
                binary.push(address[j]);
                j += 1;
            }
            proof {
                assert(address@.take(8) =~= address@);
                assert(addresses@.take(i + 1).drop_last() =~= addresses@.take(i as int));
                assert(binary@ =~= request.encoding() + concatenated(addresses@.take(i + 1)));
            }
            i += 1;
        }
        assert(addresses@.take(i as int) =~= addresses@);
        Ok(Request { connection_options: *self, request, serialized: binary })
    }
}

/// A reply: the header, the payload that followed it, and how many times
/// the request had been sent when the reply came.
#[derive(Debug)]
pub struct Response {
    pub request: crate::frame::Request,
    pub response: crate::frame::Response,
    pub payload: Vec<u8>,
    pub requests_sent: u8,
}

/// A reply as plain values.
pub struct ResponseView {
    pub request: crate::frame::Request,
    pub response: crate::frame::Response,
    pub payload: Seq<u8>,
    pub requests_sent: u8,
}

impl View for Response {
    type V = ResponseView;

    open spec fn view(&self) -> ResponseView {
        ResponseView {
            request: self.request,
            response: self.response,
            payload: self.payload@,
            requests_sent: self.requests_sent,
        }
    }
}

/// The number whose four bytes, most significant first, are these.
pub open spec fn u32_from_big_endian(b0: u8, b1: u8, b2: u8, b3: u8) -> u32 {
    (b0 * 0x100_0000 + b1 * 0x1_0000 + b2 * 0x100 + b3) as u32
}

/// The values in a payload of records, where each record is an address of
/// `address_len` bytes followed by a value of four bytes, most significant
/// first. What is left after the last whole record is dropped.
pub open spec fn record_values(payload: Seq<u8>, address_len: nat) -> Seq<u32>
    decreases payload.len(),
{
    if payload.len() < address_len + 4 {
        Seq::<u32>::empty()
    } else {
        seq![
            u32_from_big_endian(
                payload[address_len as int],
                payload[address_len as int + 1],
                payload[address_len as int + 2],
                payload[address_len as int + 3],
            ),
        ] + record_values(payload.skip((address_len + 4) as int), address_len)
    }
}

impl ResponseView {
    /// The bit patterns of the 32-bit floating point values of this reply:
    /// of a reply of values alone each four bytes are one, of a reply of
    /// pairs of a sized address and a value the last four bytes of each
    /// pair are one. Other replies hold none that can be taken out.
    pub open spec fn value_bits(self) -> Option<Seq<u32>> {
        match self.response {
            crate::frame::Response::Okay(_, Format::ValueOnly(Type::F32)) => Some(
                record_values(self.payload, 0),
            ),
            crate::frame::Response::Okay(
                _,
                Format::AddressValuePairs(Type::Bytes(address_len), Type::F32),
            ) => Some(record_values(self.payload, address_len as nat)),
            _ => None,
        }
    }
}

/// Takes the values out of a payload of records.
fn read_record_values(payload: &[u8], address_len: u8) -> (values: Vec<u32>)
    ensures
        values@ == record_values(payload@, address_len as nat),
{
    let width: usize = address_len as usize + 4;
    let mut values: Vec<u32> = Vec::new();
    let mut offset: usize = 0;
    assert(payload@.skip(0) =~= payload@);
    while payload.len() - offset >= width
        invariant
            offset <= payload.len(),
            width == address_len as usize + 4,
            record_values(payload@, address_len as nat) == values@ + record_values(
                payload@.skip(offset as int),
                address_len as nat,
            ),
        decreases payload.len() - offset,
    {
        let at: usize = offset + address_len as usize;
        let value: u32 = (payload[at] as u32) * 0x100_0000 + (payload[at + 1] as u32) * 0x1_0000
            + (payload[at + 2] as u32) * 0x100 + (payload[at + 3] as u32);
        proof {
            let rest = payload@.skip(offset as int);
            assert(rest.skip(width as int) =~= payload@.skip(offset + width));
            assert(values@.push(value) + record_values(rest.skip(width as int), address_len as nat)
                =~= values@ + (seq![value] + record_values(
                rest.skip(width as int),
                address_len as nat,
            )));
        }
        values.push(value);
        offset = offset + width;
    }
    assert(values@ + Seq::<u32>::empty() =~= values@);
    values
}

impl Response {
    /// The bit patterns of the 32-bit floating point values in the
    /// payload, where the header announces such values.
    pub fn extract_value_bits(&self) -> (values: Option<Vec<u32>>)
        ensures
            match self@.value_bits() {
                Some(expected) => values matches Some(found) && found@ == expected,
                None => values is None,
            },
    {
        match &self.response {
            crate::frame::Response::Okay(_, Format::ValueOnly(Type::F32)) => Some(
                read_record_values(self.payload.as_slice(), 0),
            ),
            crate::frame::Response::Okay(
                _,
                Format::AddressValuePairs(Type::Bytes(addr_len), Type::F32),
            ) => Some(read_record_values(self.payload.as_slice(), *addr_len)),
            _ => None,
        }
    }
}

/// Why a transaction failed. `E` is the error of the socket.
#[derive(Debug)]
#[allow(inconsistent_fields)]
pub enum DispatchError<E> {
    /// Binding, sending or receiving failed. The request comes back.
    Io { request: Request, source: E },
    /// No attempt brought a reply from the remote address.
    Timeout,
    /// A reply came whose header cannot be read. The request comes back.
    ProtocolError { request: Request, source: Error },
}

/// A failure as plain values.
#[allow(inconsistent_fields)]
pub enum DispatchErrorView<E> {
    Io { request: RequestView, source: E },
    Timeout,
    ProtocolError { request: RequestView, source: Error },
}

impl<E> View for DispatchError<E> {
    type V = DispatchErrorView<E>;

    open spec fn view(&self) -> DispatchErrorView<E> {
        match *self {
            DispatchError::Io { request, source } => DispatchErrorView::Io {
                request: request@,
                source,
            },
            DispatchError::Timeout => DispatchErrorView::Timeout,
            DispatchError::ProtocolError { request, source } => DispatchErrorView::ProtocolError {
                request: request@,
                source,
            },
        }
    }
}

/// What the socket reported after the last action.
pub enum Event<'a, E> {
    /// The socket is bound.
    Bound,
    /// The socket could not be bound.
    BindFailed(E),
    /// The request was sent.
    Sent,
    /// The request could not be sent.
    SendFailed(E),
    /// A datagram came from `from`.
    Received { datagram: &'a [u8], from: SocketAddress },
    /// Receiving failed.
    ReceiveFailed(E),
    /// Nothing came in time.
    TimedOut,
}

/// An event as plain values.
pub enum EventView<E> {
    Bound,
    BindFailed(E),
    Sent,
    SendFailed(E),
    Received { datagram: Seq<u8>, from: SocketAddress },
    ReceiveFailed(E),
    TimedOut,
}

impl<'a, E> View for Event<'a, E> {
    type V = EventView<E>;

    open spec fn view(&self) -> EventView<E> {
        match *self {
            Event::Bound => EventView::Bound,
            Event::BindFailed(e) => EventView::BindFailed(e),
            Event::Sent => EventView::Sent,
            Event::SendFailed(e) => EventView::SendFailed(e),
            Event::Received { datagram, from } => EventView::Received { datagram: datagram@, from },
            Event::ReceiveFailed(e) => EventView::ReceiveFailed(e),
            Event::TimedOut => EventView::TimedOut,
        }
    }
}

/// What is to be done on the socket next.
#[derive(Copy, Clone, Debug)]
pub enum Action {
    /// Bind a datagram socket to `local`.
    Bind { local: SocketAddress },
    /// Send the serialized request to `to`.
    Send { to: SocketAddress },
    /// Wait for one datagram, no longer than `timeout_millis`, in a buffer
    /// of `buffer_size` bytes.
    Receive { timeout_millis: u64, buffer_size: usize },
}

/// Which answer of the socket a dispatch waits for.
#[derive(Copy, Clone, PartialEq, Eq, Debug, Structural)]
pub enum Phase {
    Binding,
    Sending,
    Receiving,
}

/// A transaction under way: the request, what the socket is doing for it,
/// and how many times the request has been sent.
#[derive(Debug)]
pub struct Dispatch {
    request: Request,
    phase: Phase,
    sent: u8,
}

/// A transaction under way, as plain values.
pub struct DispatchView {
    pub request: RequestView,
    pub phase: Phase,
    pub sent: u8,
}

/// How a transaction goes on after an event.
pub enum Step<E> {
    /// It is not over: the new state, and what to do next.
    Continue(Dispatch, Action),
    /// It is over, with a reply or a failure.
    Done(Result<Response, DispatchError<E>>),
}

/// A step as plain values.
pub enum StepView<E> {
    Continue(DispatchView, Action),
    Done(Result<ResponseView, DispatchErrorView<E>>),
}

impl<E> View for Step<E> {
    type V = StepView<E>;

    open spec fn view(&self) -> StepView<E> {
        match *self {
            Step::Continue(dispatch, action) => StepView::Continue(dispatch@, action),
            Step::Done(Ok(response)) => StepView::Done(Ok(response@)),
            Step::Done(Err(error)) => StepView::Done(Err(error@)),
        }
    }
}

impl DispatchView {
    /// Whether the count of sends fits the phase: none before the socket
    /// is bound, fewer than allowed while another is under way, at least
    /// one and no more than allowed while a reply is awaited.
    pub open spec fn is_valid(self) -> bool {
        let attempts = self.request.connection_options.resend_attempts;
        match self.phase {
            Phase::Binding => self.sent == 0 && attempts >= 1,
            Phase::Sending => self.sent < attempts,
            Phase::Receiving => 1 <= self.sent <= attempts,
        }
    }

    /// What the socket is to do in this state.
    pub open spec fn pending(self) -> Action {
        let options = self.request.connection_options;
        match self.phase {
            Phase::Binding => Action::Bind { local: options.local_address() },
            Phase::Sending => Action::Send { to: options.remote_address() },
            Phase::Receiving => Action::Receive {
                timeout_millis: options.timeout_millis,
                buffer_size: options.rx_buffer_size,
            },
        }
    }

    /// This state in another phase, after `sent` sends.
    pub open spec fn moved(self, phase: Phase, sent: u8) -> DispatchView {
        DispatchView { request: self.request, phase, sent }
    }

    /// The step that goes on in this state after `sent` sends, in `phase`.
    pub open spec fn go_on<E>(self, phase: Phase, sent: u8) -> StepView<E> {
        StepView::Continue(self.moved(phase, sent), self.moved(phase, sent).pending())
    }

    /// The step after an attempt that brought no reply from the remote
    /// address: the next attempt, or `Timeout` after the last.
    pub open spec fn after_silence<E>(self) -> StepView<E> {
        if self.sent < self.request.connection_options.resend_attempts {
            self.go_on(Phase::Sending, self.sent)
        } else {
            StepView::Done(Err(DispatchErrorView::Timeout))
        }
    }

    /// The step after a datagram from the remote address: the reply with
    /// its header, the bytes behind the header as payload and the number
    /// of sends so far, or a protocol error where the header cannot be
    /// read.
    pub open spec fn after_reply<E>(self, datagram: Seq<u8>) -> StepView<E> {
        match crate::frame::Response::decode(datagram) {
            Ok((header, count)) => StepView::Done(
                Ok(
                    ResponseView {
                        request: self.request.request,
                        response: header,
                        payload: datagram.skip(count as int),
                        requests_sent: self.sent,
                    },
                ),
            ),
            Err(source) => StepView::Done(
                Err(DispatchErrorView::ProtocolError { request: self.request, source }),
            ),
        }
    }

    /// The step that `event` leads to. An event that does not answer the
    /// pending action changes nothing, and the action is asked for again.
    /// A datagram from any other than the remote address uses up its
    /// attempt, as a timeout does.
    pub open spec fn next<E>(self, event: EventView<E>) -> StepView<E> {
        match (self.phase, event) {
            (Phase::Binding, EventView::Bound) => self.go_on(Phase::Sending, 0),
            (Phase::Binding, EventView::BindFailed(source)) => StepView::Done(
                Err(DispatchErrorView::Io { request: self.request, source }),
            ),
            (Phase::Sending, EventView::Sent) => self.go_on(
                Phase::Receiving,
                (self.sent + 1) as u8,
            ),
            (Phase::Sending, EventView::SendFailed(source)) => StepView::Done(
                Err(DispatchErrorView::Io { request: self.request, source }),
            ),
            (Phase::Receiving, EventView::TimedOut) => self.after_silence(),
            (Phase::Receiving, EventView::ReceiveFailed(source)) => StepView::Done(
                Err(DispatchErrorView::Io { request: self.request, source }),
            ),
            (Phase::Receiving, EventView::Received { datagram, from }) => if from
                == self.request.connection_options.remote_address() {
                self.after_reply(datagram)
            } else {
                self.after_silence()
            },
            _ => StepView::Continue(self, self.pending()),
        }
    }
}

impl DispatchView {
    /// Where a transaction stands after `rounds` attempts from this state,
    /// each of which was sent and then timed out.
    pub open spec fn silent_rounds<E>(self, rounds: nat) -> StepView<E>
        decreases rounds,
    {
        if rounds == 0 {
            StepView::Continue(self, self.pending())
        } else {
            match self.silent_rounds::<E>((rounds - 1) as nat) {
                StepView::Continue(state, _) => match state.next::<E>(EventView::Sent) {
                    StepView::Continue(waiting, _) => waiting.next::<E>(EventView::TimedOut),
                    done => done,
                },
                done => done,
            }
        }
    }

    /// Whether this is the state of a transaction whose socket has just
    /// been bound.
    pub open spec fn is_bound(self) -> bool {
        self.phase == Phase::Sending && self.sent == 0 && self.is_valid()
    }

    /// While every attempt times out, the request is sent once per
    /// attempt: after fewer rounds than attempts are allowed the next send
    /// is pending and as many sends are counted as rounds went by; after
    /// as many rounds as attempts are allowed the transaction is over with
    /// `Timeout`, and nothing more is sent.
    pub proof fn silence_exhausts_attempts<E>(self, rounds: nat)
        requires
            self.is_bound(),
            rounds <= self.request.connection_options.resend_attempts,
        ensures
            rounds < self.request.connection_options.resend_attempts ==> self.silent_rounds::<E>(
                rounds,
            ) == self.go_on::<E>(Phase::Sending, rounds as u8),
            rounds == self.request.connection_options.resend_attempts ==> self.silent_rounds::<E>(
                rounds,
            ) == StepView::<E>::Done(Err(DispatchErrorView::Timeout)),
        decreases rounds,
    {
        if rounds > 0 {
            self.silence_exhausts_attempts::<E>((rounds - 1) as nat);
            let state = self.moved(Phase::Sending, (rounds - 1) as u8);
            assert(self.moved(Phase::Sending, 0) == self);
            assert(state.next::<E>(EventView::Sent) == state.go_on::<E>(
                Phase::Receiving,
                rounds as u8,
            ));
        } else {
            assert(self.moved(Phase::Sending, 0) == self);
        }
    }

    /// A reply from the remote address whose header can be read ends the
    /// transaction with that header, the bytes behind it as payload, and a
    /// count of sends that is one more than the number of attempts that
    /// timed out before.
    pub proof fn reply_counts_sends<E>(
        self,
        silent: nat,
        datagram: Seq<u8>,
        header: crate::frame::Response,
        count: nat,
    )
        requires
            self.is_bound(),
            silent < self.request.connection_options.resend_attempts,
            crate::frame::Response::decode(datagram) == Ok::<
                (crate::frame::Response, nat),
                Error,
            >((header, count)),
        ensures
            self.silent_rounds::<E>(silent) matches StepView::Continue(state, _) && state.next::<E>(
                EventView::Sent,
            ) matches StepView::Continue(waiting, _) && waiting.next::<E>(
                EventView::Received {
                    datagram,
                    from: self.request.connection_options.remote_address(),
                },
            ) == StepView::<E>::Done(
                Ok(
                    ResponseView {
                        request: self.request.request,
                        response: header,
                        payload: datagram.skip(count as int),
                        requests_sent: (silent + 1) as u8,
                    },
                ),
            ),
    {
        self.silence_exhausts_attempts::<E>(silent);
    }

    /// A datagram from any other than the remote address does not end a
    /// transaction that has attempts left: it is dropped, and the next
    /// attempt begins as after a timeout.
    pub proof fn stray_datagram_uses_attempt<E>(self, datagram: Seq<u8>, from: SocketAddress)
        requires
            self.phase == Phase::Receiving,
            self.is_valid(),
            self.sent < self.request.connection_options.resend_attempts,
            from != self.request.connection_options.remote_address(),
        ensures
            self.next::<E>(EventView::Received { datagram, from }) == self.go_on::<E>(
                Phase::Sending,
                self.sent,
            ),
            self.next::<E>(EventView::Received { datagram, from }) == self.next::<E>(
                EventView::TimedOut,
            ),
    {
    }
}

impl View for Dispatch {
    type V = DispatchView;

    closed spec fn view(&self) -> DispatchView {
        DispatchView { request: self.request@, phase: self.phase, sent: self.sent }
    }
}

impl Dispatch {
    #[verifier::type_invariant]
    spec fn count_fits_phase(&self) -> bool {
        self@.is_valid()
    }

    /// The request of this transaction.
    pub fn request(&self) -> (request: &Request)
        ensures
            request@ == self@.request,
    {
        &self.request
    }

    /// How many times the request has been sent.
    pub fn requests_sent(&self) -> (sent: u8)
        ensures
            sent == self@.sent,
    {
        self.sent
    }

    /// What the socket is to do now.
    pub fn pending(&self) -> (action: Action)
        ensures
            action == self@.pending(),
            self@.is_valid(),
    {
        proof {
            use_type_invariant(self);
        }
        match self.phase {
            Phase::Binding => Action::Bind { local: self.request.connection_options.local_address() },
            Phase::Sending => Action::Send { to: self.request.connection_options.remote_address() },
            Phase::Receiving => Action::Receive {
                timeout_millis: self.request.connection_options.timeout_millis(),
                buffer_size: self.request.connection_options.rx_buffer_size(),
            },
        }
    }

    /// Takes the event that answers the pending action and says how the
    /// transaction goes on.
    pub fn step<E>(self, event: Event<'_, E>) -> (r: Step<E>)
        ensures
            r@ == self@.next(event@),
            r matches Step::Continue(dispatch, _) ==> dispatch@.is_valid(),
    {
        proof {
            use_type_invariant(&self);
        }
        let attempts = self.request.connection_options.resend_attempts();
        match (self.phase, event) {
            (Phase::Binding, Event::Bound) => self.go_on(Phase::Sending, 0),
            (Phase::Binding, Event::BindFailed(source)) => Step::Done(
                Err(DispatchError::Io { request: self.request, source }),
            ),
            (Phase::Sending, Event::Sent) => {
                let sent = self.sent + 1;
                self.go_on(Phase::Receiving, sent)
            },
            (Phase::Sending, Event::SendFailed(source)) => Step::Done(
                Err(DispatchError::Io { request: self.request, source }),
            ),
            (Phase::Receiving, Event::TimedOut) => self.after_silence(),
            (Phase::Receiving, Event::ReceiveFailed(source)) => Step::Done(
                Err(DispatchError::Io { request: self.request, source }),
            ),
            (Phase::Receiving, Event::Received { datagram, from }) => {
                if from.same_as(&self.request.connection_options.remote_address()) {
                    self.after_reply(datagram)
                } else {
                    self.after_silence()
                }
            },
            (phase, _) => {
                let sent = self.sent;
                self.go_on(phase, sent)
            },
        }
    }

    /// Goes on in `phase` after `sent` sends.
    fn go_on<E>(self, phase: Phase, sent: u8) -> (r: Step<E>)
        requires
            self@.moved(phase, sent).is_valid(),
        ensures
            r@ == self@.go_on::<E>(phase, sent),
            r matches Step::Continue(dispatch, _) && dispatch@.is_valid(),
    {
        let dispatch = Dispatch { request: self.request, phase, sent };
        let action = dispatch.pending();
        Step::Continue(dispatch, action)
    }

    /// Goes on after an attempt that brought no reply from the remote
    /// address.
    fn after_silence<E>(self) -> (r: Step<E>)
        requires
            self@.phase == Phase::Receiving,
        ensures
            r@ == self@.after_silence::<E>(),
            r matches Step::Continue(dispatch, _) ==> dispatch@.is_valid(),
    {
        proof {
            use_type_invariant(&self);
        }
        if self.sent < self.request.connection_options.resend_attempts() {
            let sent = self.sent;
            self.go_on(Phase::Sending, sent)
        } else {
            Step::Done(Err(DispatchError::Timeout))
        }
    }

    /// Reads the header of a datagram from the remote address and takes
    /// what follows it as the payload.
    fn after_reply<E>(self, datagram: &[u8]) -> (r: Step<E>)
        ensures
            r@ == self@.after_reply::<E>(datagram@),
            r is Done,
    {
        let len = datagram.len();
        let mut reader: &[u8] = datagram;
        match crate::frame::Response::read(&mut reader) {
            Ok(response) => {
                let payload_size = reader.available();
                let payload = slice_to_vec(slice_subrange(datagram, len - payload_size, len));
                assert(payload@ =~= datagram@.skip(len - payload_size));
                Step::Done(
                    Ok(
                        Response {
                            request: self.request.request,
                            response,
                            payload,
                            requests_sent: self.sent,
                        },
                    ),
                )
            },
            Err(source) => Step::Done(
                Err(DispatchError::ProtocolError { request: self.request, source }),
            ),
        }
    }
}

impl Request {
    /// Starts the transaction of this request: the socket is to be bound
    /// first.
    pub fn dispatch(self) -> (r: (Dispatch, Action))
        ensures
            r.0@ == (DispatchView { request: self@, phase: Phase::Binding, sent: 0 }),
            r.0@.is_valid(),
            r.1 == r.0@.pending(),
    {
        proof {
            use_type_invariant(&self.connection_options);
        }
        let dispatch = Dispatch { request: self, phase: Phase::Binding, sent: 0 };
        let action = dispatch.pending();
        (dispatch, action)
    }
}

} // verus!
