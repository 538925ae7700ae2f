//! Request and response frames and the descriptors they carry.

use crate::io::{appended, consumed, Error, Read, Write};
use crate::types::Type;
use vstd::prelude::*;

verus! {

/// The family of physical attachment that a request addresses.
#[derive(Copy, Clone, PartialEq, Eq, Debug, Structural)]
pub enum Bus {
    OneWire,
    I2C,
    Custom(u8),
}

impl Bus {
    /// Whether `tag` is one of the assigned bus tags.
    pub open spec fn is_assigned_tag(tag: u8) -> bool {
        tag == 0x00 || tag == 0x01 || tag == 0xFF
    }

    /// The bytes that stand for this bus on the wire.
    pub open spec fn encoding(self) -> Seq<u8> {
        match self {
            Bus::OneWire => seq![0x00u8],
            Bus::I2C => seq![0x01u8],
            Bus::Custom(id) => seq![0xFFu8, id],
        }
    }

    /// What the leading bytes of `bytes` stand for: the bus and the number of
    /// bytes it takes, or the reason why they are no bus.
    pub open spec fn decode(bytes: Seq<u8>) -> Result<(Bus, nat), Error> {
        if bytes.len() == 0 {
            Err(Error::UnexpectedEOF)
        } else if bytes[0] == 0x00 {
            Ok((Bus::OneWire, 1nat))
        } else if bytes[0] == 0x01 {
            Ok((Bus::I2C, 1nat))
        } else if bytes[0] == 0xFF {
            if bytes.len() < 2 {
                Err(Error::UnexpectedEOF)
            } else {
                Ok((Bus::Custom(bytes[1]), 2nat))
            }
        } else {
            Err(Error::UnknownTypeIdentifier)
        }
    }

    /// Appends the encoding of this bus and returns its length.
    pub fn write<W: Write>(&self, writer: &mut W) -> (r: Result<usize, Error>)
        ensures
            appended(
                old(writer).written(),
                old(writer).room(),
                final(writer).written(),
                final(writer).room(),
                self.encoding(),
                r,
            ),
    {
        Ok(
            match self {
                Bus::OneWire => writer.write_u8(0x00)?,
                Bus::I2C => writer.write_u8(0x01)?,
                Bus::Custom(id) => writer.write_u8(0xFF)? + writer.write_u8(*id)?,
            },
        )
    }

    /// Reads one bus, consuming exactly the bytes that encode it.
    pub fn read<R: Read>(reader: &mut R) -> (r: Result<Bus, Error>)
        ensures
            consumed(
                old(reader).remaining(),
                final(reader).remaining(),
                Bus::decode(old(reader).remaining()),
                r,
            ),
    {
        Ok(
            match reader.read_u8()? {
                0x00 => Bus::OneWire,
                0x01 => Bus::I2C,
                0xFF => Bus::Custom(reader.read_u8()?),
                _ => return Err(Error::UnknownTypeIdentifier),
            },
        )
    }
}

/// The shape of the payload that follows a successful response.
#[derive(Copy, Clone, PartialEq, Eq, Debug, Structural)]
pub enum Format {
    Empty,
    ValueOnly(Type),
    AddressOnly(Type),
    AddressValuePairs(Type, Type),
}

impl Format {
    /// Whether `tag` is one of the assigned format tags.
    pub open spec fn is_assigned_tag(tag: u8) -> bool {
        tag <= 0x02 || tag == 0xFF
    }

    /// The bytes that stand for this format on the wire.
    pub open spec fn encoding(self) -> Seq<u8> {
        match self {
            Format::ValueOnly(t) => seq![0x00u8] + t.encoding(),
            Format::AddressOnly(t) => seq![0x01u8] + t.encoding(),
            Format::AddressValuePairs(address, value) => seq![0x02u8] + address.encoding()
                + value.encoding(),
            Format::Empty => seq![0xFFu8],
        }
    }

    /// What the leading bytes of `bytes` stand for: the format and the number
    /// of bytes it takes, or the reason why they are no format.
    pub open spec fn decode(bytes: Seq<u8>) -> Result<(Format, nat), Error> {
        if bytes.len() == 0 {
            Err(Error::UnexpectedEOF)
        } else if bytes[0] == 0x00 {
            match Type::decode(bytes.skip(1)) {
                Ok((t, n)) => Ok((Format::ValueOnly(t), 1 + n)),
                Err(e) => Err(e),
            }
        } else if bytes[0] == 0x01 {
            match Type::decode(bytes.skip(1)) {
                Ok((t, n)) => Ok((Format::AddressOnly(t), 1 + n)),
                Err(e) => Err(e),
            }
        } else if bytes[0] == 0x02 {
            match Type::decode(bytes.skip(1)) {
                Ok((address, n)) => match Type::decode(bytes.skip(1 + n as int)) {
                    Ok((value, m)) => Ok((Format::AddressValuePairs(address, value), 1 + n + m)),
                    Err(e) => Err(e),
                },
                Err(e) => Err(e),
            }
        } else if bytes[0] == 0xFF {
            Ok((Format::Empty, 1nat))
        } else {
            Err(Error::UnknownTypeIdentifier)
        }
    }

    /// Appends the encoding of this format and returns its length.
    pub fn write<W: Write>(&self, writer: &mut W) -> (r: Result<usize, Error>)
        ensures
            appended(
                old(writer).written(),
                old(writer).room(),
                final(writer).written(),
                final(writer).room(),
                self.encoding(),
                r,
            ),
    {
        Ok(
            match self {
                Format::ValueOnly(t) => writer.write_u8(0x00)? + t.write(writer)?,
                Format::AddressOnly(t) => writer.write_u8(0x01)? + t.write(writer)?,
                Format::AddressValuePairs(t1, t2) => {
                    writer.write_u8(0x02)? + t1.write(writer)? + t2.write(writer)?
                },
                Format::Empty => writer.write_u8(0xFF)?,
            },
        )
    }

    /// Reads one format, consuming exactly the bytes that encode it.
    pub fn read<R: Read>(reader: &mut R) -> (r: Result<Format, Error>)
        ensures
            consumed(
                old(reader).remaining(),
                final(reader).remaining(),
                Format::decode(old(reader).remaining()),
                r,
            ),
    {
        Ok(
            match reader.read_u8()? {
                0x00 => Format::ValueOnly(Type::read(reader)?),
                0x01 => Format::AddressOnly(Type::read(reader)?),
                0x02 => Format::AddressValuePairs(Type::read(reader)?, Type::read(reader)?),
                0xFF => Format::Empty,
                _ => return Err(Error::UnknownTypeIdentifier),
            },
        )
    }
}

/// The header of a reply. Every variant echoes the id of the request.
#[derive(Copy, Clone, PartialEq, Eq, Debug, Structural)]
pub enum Response {
    NotImplemented(u8),
    NotAvailable(u8),
    Okay(u8, Format),
}

impl Response {
    /// The id of the request that this response answers.
    pub open spec fn spec_id(self) -> u8 {
        match self {
            Response::NotImplemented(id) => id,
            Response::NotAvailable(id) => id,
            Response::Okay(id, _) => id,
        }
    }

    /// Whether `tag` is one of the assigned response opcodes.
    pub open spec fn is_assigned_tag(tag: u8) -> bool {
        tag == 0x00 || tag == 0xF0 || tag == 0xF1
    }

    /// The bytes that stand for this response header on the wire.
    pub open spec fn encoding(self) -> Seq<u8> {
        match self {
            Response::NotImplemented(id) => seq![0xF0u8, id],
            Response::NotAvailable(id) => seq![0xF1u8, id],
            Response::Okay(id, format) => seq![0x00u8, id] + format.encoding(),
        }
    }

    /// What the leading bytes of `bytes` stand for: the response header and
    /// the number of bytes it takes, or the reason why they are none.
    pub open spec fn decode(bytes: Seq<u8>) -> Result<(Response, nat), Error> {
        if bytes.len() == 0 {
            Err(Error::UnexpectedEOF)
        } else if !Response::is_assigned_tag(bytes[0]) {
            Err(Error::UnknownTypeIdentifier)
        } else if bytes.len() < 2 {
            Err(Error::UnexpectedEOF)
        } else if bytes[0] == 0xF0 {
            Ok((Response::NotImplemented(bytes[1]), 2nat))
        } else if bytes[0] == 0xF1 {
            Ok((Response::NotAvailable(bytes[1]), 2nat))
        } else {
            match Format::decode(bytes.skip(2)) {
                Ok((format, n)) => Ok((Response::Okay(bytes[1], format), 2 + n)),
                Err(e) => Err(e),
            }
        }
    }

    pub fn id(&self) -> (id: u8)
        ensures
            id == self.spec_id(),
    {
        match self {
            Response::NotImplemented(id) => *id,
            Response::NotAvailable(id) => *id,
            Response::Okay(id, _) => *id,
        }
    }

    /// Appends the encoding of this header and returns its length.
    pub fn write<W: Write>(&self, writer: &mut W) -> (r: Result<usize, Error>)
        ensures
            appended(
                old(writer).written(),
                old(writer).room(),
                final(writer).written(),
                final(writer).room(),
                self.encoding(),
                r,
            ),
    {
        Ok(
            match self {
                Response::NotImplemented(id) => writer.write_u8(0xF0)? + writer.write_u8(*id)?,
                Response::NotAvailable(id) => writer.write_u8(0xF1)? + writer.write_u8(*id)?,
                Response::Okay(id, format) => {
                    writer.write_u8(0x00)? + writer.write_u8(*id)? + format.write(writer)?
                },
            },
        )
    }

    /// Reads one response header, consuming exactly the bytes that encode it.
    pub fn read<R: Read>(reader: &mut R) -> (r: Result<Response, Error>)
        ensures
            consumed(
                old(reader).remaining(),
                final(reader).remaining(),
                Response::decode(old(reader).remaining()),
                r,
            ),
    {
        Ok(
            match reader.read_u8()? {
                0xF0 => Response::NotImplemented(reader.read_u8()?),
                0xF1 => Response::NotAvailable(reader.read_u8()?),
                0x00 => Response::Okay(reader.read_u8()?, Format::read(reader)?),
                _ => return Err(Error::UnknownTypeIdentifier),
            },
        )
    }
}

/// A request frame. Every variant carries the id that the reply echoes.
#[derive(Copy, Clone, PartialEq, Eq, Debug)]
pub enum Request {
    ReadSpecified(u8, Bus),
    ReadAll(u8),
    ReadAllOnBus(u8, Bus),
    DiscoverAll(u8),
    DiscoverAllOnBus(u8, Bus),
    SetNetworkMac(u8, [u8; 6]),
    SetNetworkIpSubnetGateway(u8, [u8; 4], [u8; 4], [u8; 4]),
    ListComponents(u8),
    ListComponentsWithReportV1(u8),
    RetrieveProperty(u8, u8),
    RetrieveErrorDump(u8),
    RetrieveDeviceInformation(u8),
    RetrieveNetworkConfiguration(u8),
    RetrieveVersionInformation(u8),
}

impl Request {
    /// The opcode of this request.
    pub open spec fn opcode(self) -> u8 {
        match self {
            Request::ReadSpecified(_, _) => 0x00,
            Request::ReadAll(_) => 0x01,
            Request::ReadAllOnBus(_, _) => 0x02,
            Request::DiscoverAll(_) => 0x10,
            Request::DiscoverAllOnBus(_, _) => 0x11,
            Request::SetNetworkMac(_, _) => 0xA0,
            Request::SetNetworkIpSubnetGateway(_, _, _, _) => 0xA1,
            Request::ListComponents(_) => 0xD0,
            Request::ListComponentsWithReportV1(_) => 0xD1,
            Request::RetrieveProperty(_, _) => 0xFB,
            Request::RetrieveErrorDump(_) => 0xFC,
            Request::RetrieveDeviceInformation(_) => 0xFD,
            Request::RetrieveNetworkConfiguration(_) => 0xFE,
            Request::RetrieveVersionInformation(_) => 0xFF,
        }
    }

    /// The id that the reply to this request echoes.
    pub open spec fn spec_id(self) -> u8 {
        match self {
            Request::ReadSpecified(id, _) => id,
            Request::ReadAll(id) => id,
            Request::ReadAllOnBus(id, _) => id,
            Request::DiscoverAll(id) => id,
            Request::DiscoverAllOnBus(id, _) => id,
            Request::SetNetworkMac(id, _) => id,
            Request::SetNetworkIpSubnetGateway(id, _, _, _) => id,
            Request::ListComponents(id) => id,
            Request::ListComponentsWithReportV1(id) => id,
            Request::RetrieveProperty(id, _) => id,
            Request::RetrieveErrorDump(id) => id,
            Request::RetrieveDeviceInformation(id) => id,
            Request::RetrieveNetworkConfiguration(id) => id,
            Request::RetrieveVersionInformation(id) => id,
        }
    }

    /// Whether `tag` is one of the assigned request opcodes.
    pub open spec fn is_assigned_tag(tag: u8) -> bool {
        tag <= 0x02 || tag == 0x10 || tag == 0x11 || tag == 0xA0 || tag == 0xA1 || tag == 0xD0
            || tag == 0xD1 || tag >= 0xFB
    }

    /// What follows the opcode and the id in the encoding of this request.
    pub open spec fn arguments(self) -> Seq<u8> {
        match self {
            Request::ReadSpecified(_, bus) => bus.encoding(),
            Request::ReadAllOnBus(_, bus) => bus.encoding(),
            Request::DiscoverAllOnBus(_, bus) => bus.encoding(),
            Request::SetNetworkMac(_, mac) => mac@,
            Request::SetNetworkIpSubnetGateway(_, ip, subnet, gateway) => ip@ + subnet@
                + gateway@,
            Request::RetrieveProperty(_, len) => seq![len],
            _ => Seq::<u8>::empty(),
        }
    }

    /// The bytes that stand for this request on the wire: opcode, id, and
    /// the arguments of the variant.
    pub open spec fn encoding(self) -> Seq<u8> {
        seq![self.opcode(), self.spec_id()] + self.arguments()
    }

    /// What the leading bytes of `bytes` stand for: the request and the
    /// number of bytes it takes, or the reason why they are none.
    pub open spec fn decode(bytes: Seq<u8>) -> Result<(Request, nat), Error> {
        if bytes.len() == 0 {
            Err(Error::UnexpectedEOF)
        } else if !Request::is_assigned_tag(bytes[0]) {
            Err(Error::UnknownTypeIdentifier)
        } else if bytes.len() < 2 {
            Err(Error::UnexpectedEOF)
        } else {
            let op = bytes[0];
            let id = bytes[1];
            if op == 0x00 || op == 0x02 || op == 0x11 {
                match Bus::decode(bytes.skip(2)) {
                    Ok((bus, n)) => Ok(
                        (
                            if op == 0x00 {
                                Request::ReadSpecified(id, bus)
                            } else if op == 0x02 {
                                Request::ReadAllOnBus(id, bus)
                            } else {
                                Request::DiscoverAllOnBus(id, bus)
                            },
                            2 + n,
                        ),
                    ),
                    Err(e) => Err(e),
                }
            } else if op == 0xA0 {
                if bytes.len() < 8 {
                    Err(Error::UnexpectedEOF)
                } else {
                    Ok(
                        (
                            Request::SetNetworkMac(
                                id,
                                [bytes[2], bytes[3], bytes[4], bytes[5], bytes[6], bytes[7]],
                            ),
                            8nat,
                        ),
                    )
                }
            } else if op == 0xA1 {
                if bytes.len() < 14 {
                    Err(Error::UnexpectedEOF)
                } else {
                    Ok(
                        (
                            Request::SetNetworkIpSubnetGateway(
                                id,
                                [bytes[2], bytes[3], bytes[4], bytes[5]],
                                [bytes[6], bytes[7], bytes[8], bytes[9]],
                                [bytes[10], bytes[11], bytes[12], bytes[13]],
                            ),
                            14nat,
                        ),
                    )
                }
            } else if op == 0xFB {
                if bytes.len() < 3 {
                    Err(Error::UnexpectedEOF)
                } else {
                    Ok((Request::RetrieveProperty(id, bytes[2]), 3nat))
                }
            } else {
                Ok(
                    (
                        if op == 0x01 {
                            Request::ReadAll(id)
                        } else if op == 0x10 {
                            Request::DiscoverAll(id)
                        } else if op == 0xD0 {
                            Request::ListComponents(id)
                        } else if op == 0xD1 {
                            Request::ListComponentsWithReportV1(id)
                        } else if op == 0xFC {
                            Request::RetrieveErrorDump(id)
                        } else if op == 0xFD {
                            Request::RetrieveDeviceInformation(id)
                        } else if op == 0xFE {
                            Request::RetrieveNetworkConfiguration(id)
                        } else {
                            Request::RetrieveVersionInformation(id)
                        },
                        2nat,
                    ),
                )
            }
        }
    }

    pub fn id(&self) -> (id: u8)
        ensures
            id == self.spec_id(),
    {
        match self {
            Request::ReadSpecified(id, _) => *id,
            Request::ReadAll(id) => *id,
            Request::ReadAllOnBus(id, _) => *id,
            Request::DiscoverAll(id) => *id,
            Request::DiscoverAllOnBus(id, _) => *id,
            Request::SetNetworkMac(id, _) => *id,
            Request::SetNetworkIpSubnetGateway(id, _, _, _) => *id,
            Request::ListComponents(id) => *id,
            Request::ListComponentsWithReportV1(id) => *id,
            Request::RetrieveProperty(id, _) => *id,
            Request::RetrieveErrorDump(id) => *id,
            Request::RetrieveDeviceInformation(id) => *id,
            Request::RetrieveNetworkConfiguration(id) => *id,
            Request::RetrieveVersionInformation(id) => *id,
        }
    }

    /// Appends the encoding of this request and returns its length.
    pub fn write<W: Write>(&self, writer: &mut W) -> (r: Result<usize, Error>)
        ensures
            appended(
                old(writer).written(),
                old(writer).room(),
                final(writer).written(),
                final(writer).room(),
                self.encoding(),
                r,
            ),
    {
        Ok(
            match self {
                Request::ReadSpecified(id, bus) => {
                    writer.write_u8(0x00)? + writer.write_u8(*id)? + bus.write(writer)?
                },
                Request::ReadAll(id) => writer.write_u8(0x01)? + writer.write_u8(*id)?,
                Request::ReadAllOnBus(id, bus) => {
                    writer.write_u8(0x02)? + writer.write_u8(*id)? + bus.write(writer)?
                },
                Request::DiscoverAll(id) => writer.write_u8(0x10)? + writer.write_u8(*id)?,
                Request::DiscoverAllOnBus(id, bus) => {
                    writer.write_u8(0x11)? + writer.write_u8(*id)? + bus.write(writer)?
                },
                Request::SetNetworkMac(id, mac) => {
                    writer.write_u8(0xA0)? + writer.write_u8(*id)? + writer.write_all(
                        mac.as_slice(),
                    )?
                },
                Request::SetNetworkIpSubnetGateway(id, ip, subnet, gateway) => {
                    writer.write_u8(0xA1)? + writer.write_u8(*id)? + writer.write_all(
                        ip.as_slice(),
                    )? + writer.write_all(subnet.as_slice())? + writer.write_all(
                        gateway.as_slice(),
                    )?
                },
                Request::ListComponents(id) => writer.write_u8(0xD0)? + writer.write_u8(*id)?,
                Request::ListComponentsWithReportV1(id) => {
                    writer.write_u8(0xD1)? + writer.write_u8(*id)?
                },
                Request::RetrieveProperty(id, len) => {
                    writer.write_u8(0xFB)? + writer.write_u8(*id)? + writer.write_u8(*len)?
                },
                Request::RetrieveErrorDump(id) => writer.write_u8(0xFC)? + writer.write_u8(*id)?,
                Request::RetrieveDeviceInformation(id) => {
                    writer.write_u8(0xFD)? + writer.write_u8(*id)?
                },
                Request::RetrieveNetworkConfiguration(id) => {
                    writer.write_u8(0xFE)? + writer.write_u8(*id)?
                },
                Request::RetrieveVersionInformation(id) => {
                    writer.write_u8(0xFF)? + writer.write_u8(*id)?
                },
            },
        )
    }

    /// Reads one request, consuming exactly the bytes that encode it.
    pub fn read<R: Read>(reader: &mut R) -> (r: Result<Request, Error>)
        ensures
            consumed(
                old(reader).remaining(),
                final(reader).remaining(),
                Request::decode(old(reader).remaining()),
                r,
            ),
    {
        let ghost bytes = reader.remaining();
        Ok(
            match reader.read_u8()? {
                0x00 => Request::ReadSpecified(reader.read_u8()?, Bus::read(reader)?),
                0x01 => Request::ReadAll(reader.read_u8()?),
                0x02 => Request::ReadAllOnBus(reader.read_u8()?, Bus::read(reader)?),
                0x10 => Request::DiscoverAll(reader.read_u8()?),
                0x11 => Request::DiscoverAllOnBus(reader.read_u8()?, Bus::read(reader)?),
                0xA0 => {
                    let id = reader.read_u8()?;
                    let mac = [
                        reader.read_u8()?,
                        reader.read_u8()?,
                        reader.read_u8()?,
                        reader.read_u8()?,
                        reader.read_u8()?,
                        reader.read_u8()?,
                    ];
                    assert(mac =~= [
                        bytes[2],
                        bytes[3],
                        bytes[4],
                        bytes[5],
                        bytes[6],
                        bytes[7],
                    ]);
                    Request::SetNetworkMac(id, mac)
                },
                0xA1 => {
                    let id = reader.read_u8()?;
                    let ip = [
                        reader.read_u8()?,
                        reader.read_u8()?,
                        reader.read_u8()?,
                        reader.read_u8()?,
                    ];
                    let subnet = [
                        reader.read_u8()?,
                        reader.read_u8()?,
                        reader.read_u8()?,
                        reader.read_u8()?,
                    ];
                    let gateway = [
                        reader.read_u8()?,
                        reader.read_u8()?,
                        reader.read_u8()?,
                        reader.read_u8()?,
                    ];
                    assert(ip =~= [bytes[2], bytes[3], bytes[4], bytes[5]]);
                    assert(subnet =~= [bytes[6], bytes[7], bytes[8], bytes[9]]);
                    assert(gateway =~= [bytes[10], bytes[11], bytes[12], bytes[13]]);
                    Request::SetNetworkIpSubnetGateway(id, ip, subnet, gateway)
                },
                0xD0 => Request::ListComponents(reader.read_u8()?),
                0xD1 => Request::ListComponentsWithReportV1(reader.read_u8()?),
                0xFB => Request::RetrieveProperty(reader.read_u8()?, reader.read_u8()?),
                0xFC => Request::RetrieveErrorDump(reader.read_u8()?),
                0xFD => Request::RetrieveDeviceInformation(reader.read_u8()?),
                0xFE => Request::RetrieveNetworkConfiguration(reader.read_u8()?),
                0xFF => Request::RetrieveVersionInformation(reader.read_u8()?),
                _ => return Err(Error::UnknownTypeIdentifier),
            },
        )
    }
}

impl Bus {
    /// Decoding finds a bus again at the head of any byte string that starts
    /// with its encoding, and takes exactly the encoding's length.
    pub proof fn round_trip(self, rest: Seq<u8>)
        ensures
            Bus::decode(self.encoding() + rest) == Ok::<(Bus, nat), Error>(
                (self, self.encoding().len()),
            ),
    {
        let bytes = self.encoding() + rest;
        assert(bytes[0] == self.encoding()[0]);
        if self.encoding().len() > 1 {
            assert(bytes[1] == self.encoding()[1]);
        }
    }

    /// A first byte outside the assigned tags is refused.
    pub proof fn unassigned_tag_is_refused(bytes: Seq<u8>)
        requires
            bytes.len() > 0,
            !Bus::is_assigned_tag(bytes[0]),
        ensures
            Bus::decode(bytes) == Err::<(Bus, nat), Error>(Error::UnknownTypeIdentifier),
    {
    }

    /// Every proper prefix of an encoding ends before the bus does.
    pub proof fn truncated_is_incomplete(self, kept: int)
        requires
            0 <= kept < self.encoding().len(),
        ensures
            Bus::decode(self.encoding().take(kept)) == Err::<(Bus, nat), Error>(
                Error::UnexpectedEOF,
            ),
    {
        let bytes = self.encoding().take(kept);
        if kept > 0 {
            assert(bytes[0] == self.encoding()[0]);
        }
    }
}

impl Format {
    /// Decoding finds a format again at the head of any byte string that
    /// starts with its encoding, and takes exactly the encoding's length.
    pub proof fn round_trip(self, rest: Seq<u8>)
        ensures
            Format::decode(self.encoding() + rest) == Ok::<(Format, nat), Error>(
                (self, self.encoding().len()),
            ),
    {
        let bytes = self.encoding() + rest;
        assert(bytes[0] == self.encoding()[0]);
        match self {
            Format::ValueOnly(t) => {
                assert(bytes.skip(1) =~= t.encoding() + rest);
                t.round_trip(rest);
            },
            Format::AddressOnly(t) => {
                assert(bytes.skip(1) =~= t.encoding() + rest);
                t.round_trip(rest);
            },
            Format::AddressValuePairs(address, value) => {
                assert(bytes.skip(1) =~= address.encoding() + (value.encoding() + rest));
                address.round_trip(value.encoding() + rest);
                assert(bytes.skip(1 + address.encoding().len() as int) =~= value.encoding() + rest);
                value.round_trip(rest);
            },
            Format::Empty => {},
        }
    }

    /// A first byte outside the assigned tags is refused.
    pub proof fn unassigned_tag_is_refused(bytes: Seq<u8>)
        requires
            bytes.len() > 0,
            !Format::is_assigned_tag(bytes[0]),
        ensures
            Format::decode(bytes) == Err::<(Format, nat), Error>(Error::UnknownTypeIdentifier),
    {
    }

    /// Every proper prefix of an encoding ends before the format does.
    pub proof fn truncated_is_incomplete(self, kept: int)
        requires
            0 <= kept < self.encoding().len(),
        ensures
            Format::decode(self.encoding().take(kept)) == Err::<(Format, nat), Error>(
                Error::UnexpectedEOF,
            ),
    {
        let bytes = self.encoding().take(kept);
        if kept > 0 {
            assert(bytes[0] == self.encoding()[0]);
            match self {
                Format::ValueOnly(t) => {
                    assert(bytes.skip(1) =~= t.encoding().take(kept - 1));
                    t.truncated_is_incomplete(kept - 1);
                },
                Format::AddressOnly(t) => {
                    assert(bytes.skip(1) =~= t.encoding().take(kept - 1));
                    t.truncated_is_incomplete(kept - 1);
                },
                Format::AddressValuePairs(address, value) => {
                    let first = address.encoding().len() as int;
                    if kept - 1 < first {
                        assert(bytes.skip(1) =~= address.encoding().take(kept - 1));
                        address.truncated_is_incomplete(kept - 1);
                    } else {
                        let tail = value.encoding().take(kept - 1 - first);
                        assert(bytes.skip(1) =~= address.encoding() + tail);
                        address.round_trip(tail);
                        assert(bytes.skip(1 + first) =~= tail);
                        value.truncated_is_incomplete(kept - 1 - first);
                    }
                },
                Format::Empty => {},
            }
        }
    }
}

impl Response {
    /// Decoding finds a response header again at the head of any byte string
    /// that starts with its encoding, and takes exactly the encoding's
    /// length: what follows the header is the payload.
    pub proof fn round_trip(self, rest: Seq<u8>)
        ensures
            Response::decode(self.encoding() + rest) == Ok::<(Response, nat), Error>(
                (self, self.encoding().len()),
            ),
    {
        let bytes = self.encoding() + rest;
        assert(bytes[0] == self.encoding()[0]);
        assert(bytes[1] == self.encoding()[1]);
        match self {
            Response::Okay(_, format) => {
                assert(bytes.skip(2) =~= format.encoding() + rest);
                format.round_trip(rest);
            },
            _ => {},
        }
    }

    /// A first byte outside the assigned opcodes is refused.
    pub proof fn unassigned_tag_is_refused(bytes: Seq<u8>)
        requires
            bytes.len() > 0,
            !Response::is_assigned_tag(bytes[0]),
        ensures
            Response::decode(bytes) == Err::<(Response, nat), Error>(
                Error::UnknownTypeIdentifier,
            ),
    {
    }

    /// Every proper prefix of an encoding ends before the header does.
    pub proof fn truncated_is_incomplete(self, kept: int)
        requires
            0 <= kept < self.encoding().len(),
        ensures
            Response::decode(self.encoding().take(kept)) == Err::<(Response, nat), Error>(
                Error::UnexpectedEOF,
            ),
    {
        let bytes = self.encoding().take(kept);
        if kept > 0 {
            assert(bytes[0] == self.encoding()[0]);
        }
        if kept > 1 {
            assert(bytes[1] == self.encoding()[1]);
            match self {
                Response::Okay(_, format) => {
                    assert(bytes.skip(2) =~= format.encoding().take(kept - 2));
                    format.truncated_is_incomplete(kept - 2);
                },
                _ => {},
            }
        }
    }
}

impl Request {
    /// Decoding finds a request again at the head of any byte string that
    /// starts with its encoding, and takes exactly the encoding's length.
    pub proof fn round_trip(self, rest: Seq<u8>)
        ensures
            Request::decode(self.encoding() + rest) == Ok::<(Request, nat), Error>(
                (self, self.encoding().len()),
            ),
    {
        let bytes = self.encoding() + rest;
        assert(bytes[0] == self.opcode());
        assert(bytes[1] == self.spec_id());
        assert(bytes.skip(2) =~= self.arguments() + rest);
        match self {
            Request::ReadSpecified(_, bus) => bus.round_trip(rest),
            Request::ReadAllOnBus(_, bus) => bus.round_trip(rest),
            Request::DiscoverAllOnBus(_, bus) => bus.round_trip(rest),
            Request::SetNetworkMac(_, mac) => {
                assert(forall|i: int| 0 <= i < 6 ==> bytes[2 + i] == mac@[i]);
                assert(mac =~= [bytes[2], bytes[3], bytes[4], bytes[5], bytes[6], bytes[7]]);
            },
            Request::SetNetworkIpSubnetGateway(_, ip, subnet, gateway) => {
                assert(forall|i: int| 0 <= i < 4 ==> bytes[2 + i] == ip@[i]);
                assert(forall|i: int| 0 <= i < 4 ==> bytes[6 + i] == subnet@[i]);
                assert(forall|i: int| 0 <= i < 4 ==> bytes[10 + i] == gateway@[i]);
                assert(ip =~= [bytes[2], bytes[3], bytes[4], bytes[5]]);
                assert(subnet =~= [bytes[6], bytes[7], bytes[8], bytes[9]]);
                assert(gateway =~= [bytes[10], bytes[11], bytes[12], bytes[13]]);
            },
            Request::RetrieveProperty(_, len) => {
                assert(bytes[2] == len);
            },
            _ => {},
        }
    }

    /// A first byte outside the assigned opcodes is refused.
    pub proof fn unassigned_tag_is_refused(bytes: Seq<u8>)
        requires
            bytes.len() > 0,
            !Request::is_assigned_tag(bytes[0]),
        ensures
            Request::decode(bytes) == Err::<(Request, nat), Error>(Error::UnknownTypeIdentifier),
    {
    }

    /// Every proper prefix of an encoding ends before the request does.
    pub proof fn truncated_is_incomplete(self, kept: int)
        requires
            0 <= kept < self.encoding().len(),
        ensures
            Request::decode(self.encoding().take(kept)) == Err::<(Request, nat), Error>(
                Error::UnexpectedEOF,
            ),
    {
        let bytes = self.encoding().take(kept);
        if kept > 0 {
            assert(bytes[0] == self.opcode());
        }
        if kept > 1 {
            assert(bytes[1] == self.spec_id());
            assert(bytes.skip(2) =~= self.arguments().take(kept - 2));
            match self {
                Request::ReadSpecified(_, bus) => bus.truncated_is_incomplete(kept - 2),
                Request::ReadAllOnBus(_, bus) => bus.truncated_is_incomplete(kept - 2),
                Request::DiscoverAllOnBus(_, bus) => bus.truncated_is_incomplete(kept - 2),
                _ => {},
            }
        }
    }
}

} // verus!
