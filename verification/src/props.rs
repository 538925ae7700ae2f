//! Properties: hierarchical byte paths that name what a device can report,
//! and the records that describe them.

use crate::io::{appended, clip_len, clip_to_u8, consumed, Error, Read, Write};
use crate::types::Type;
use vstd::prelude::*;
use vstd::slice::{slice_subrange, slice_to_vec};
use vstd::string::StringExecFns;
use vstd::utf8::{decode_utf8, encode_utf8, valid_utf8};

pub mod handling;

verus! {

/// The first byte of every property path.
#[derive(Copy, Clone, PartialEq, Eq, Debug, Structural)]
pub enum ComponentRoot {
    Device,
    System,
    Platform,
    Module,
}

impl ComponentRoot {
    /// The byte that stands for this root in a path.
    pub open spec fn spec_code(self) -> u8 {
        match self {
            ComponentRoot::Device => 0x10,
            ComponentRoot::System => 0x20,
            ComponentRoot::Platform => 0x30,
            ComponentRoot::Module => 0x40,
        }
    }

    #[verifier::when_used_as_spec(spec_code)]
    pub fn code(self) -> (code: u8)
        ensures
            code == self.spec_code(),
    {
        match self {
            ComponentRoot::Device => 0x10,
            ComponentRoot::System => 0x20,
            ComponentRoot::Platform => 0x30,
            ComponentRoot::Module => 0x40,
        }
    }

    /// The root that `number` stands for; a number that stands for none
    /// comes back as the error.
    pub fn try_from_primitive(number: u8) -> (r: Result<ComponentRoot, u8>)
        ensures
            match r {
                Ok(root) => root.spec_code() == number,
                Err(refused) => refused == number && forall|root: ComponentRoot|
                    root.spec_code() != number,
            },
    {
        match number {
            0x10 => Ok(ComponentRoot::Device),
            0x20 => Ok(ComponentRoot::System),
            0x30 => Ok(ComponentRoot::Platform),
            0x40 => Ok(ComponentRoot::Module),
            _ => Err(number),
        }
    }
}

/// Components below the `System` root.
#[derive(Copy, Clone, PartialEq, Eq, Debug, Structural)]
pub enum SystemComponent {
    Whatever,
}

/// Components below the `Device` root.
#[derive(Copy, Clone, PartialEq, Eq, Debug, Structural)]
pub enum DeviceComponent {
    Cpu,
    Frequency,
    Uptime,
}

impl DeviceComponent {
    /// The byte that stands for this component in a path.
    pub open spec fn spec_code(self) -> u8 {
        match self {
            DeviceComponent::Cpu => 0x00,
            DeviceComponent::Frequency => 0x01,
            DeviceComponent::Uptime => 0x02,
        }
    }

    #[verifier::when_used_as_spec(spec_code)]
    pub fn code(self) -> (code: u8)
        ensures
            code == self.spec_code(),
    {
        match self {
            DeviceComponent::Cpu => 0x00,
            DeviceComponent::Frequency => 0x01,
            DeviceComponent::Uptime => 0x02,
        }
    }

    /// The component that `number` stands for; a number that stands for
    /// none comes back as the error.
    pub fn try_from_primitive(number: u8) -> (r: Result<DeviceComponent, u8>)
        ensures
            match r {
                Ok(component) => component.spec_code() == number,
                Err(refused) => refused == number && forall|component: DeviceComponent|
                    component.spec_code() != number,
            },
    {
        match number {
            0x00 => Ok(DeviceComponent::Cpu),
            0x01 => Ok(DeviceComponent::Frequency),
            0x02 => Ok(DeviceComponent::Uptime),
            _ => Err(number),
        }
    }
}

/// Components below `Device`/`Cpu`.
#[derive(Copy, Clone, PartialEq, Eq, Debug, Structural)]
pub enum CpuComponent {
    Id,
    Implementer,
    Variant,
    PartNumber,
    Revision,
}

impl CpuComponent {
    /// The byte that stands for this component in a path.
    pub open spec fn spec_code(self) -> u8 {
        match self {
            CpuComponent::Id => 0x00,
            CpuComponent::Implementer => 0x01,
            CpuComponent::Variant => 0x02,
            CpuComponent::PartNumber => 0x03,
            CpuComponent::Revision => 0x04,
        }
    }

    #[verifier::when_used_as_spec(spec_code)]
    pub fn code(self) -> (code: u8)
        ensures
            code == self.spec_code(),
    {
        match self {
            CpuComponent::Id => 0x00,
            CpuComponent::Implementer => 0x01,
            CpuComponent::Variant => 0x02,
            CpuComponent::PartNumber => 0x03,
            CpuComponent::Revision => 0x04,
        }
    }

    /// The component that `number` stands for; a number that stands for
    /// none comes back as the error.
    pub fn try_from_primitive(number: u8) -> (r: Result<CpuComponent, u8>)
        ensures
            match r {
                Ok(component) => component.spec_code() == number,
                Err(refused) => refused == number && forall|component: CpuComponent|
                    component.spec_code() != number,
            },
    {
        match number {
            0x00 => Ok(CpuComponent::Id),
            0x01 => Ok(CpuComponent::Implementer),
            0x02 => Ok(CpuComponent::Variant),
            0x03 => Ok(CpuComponent::PartNumber),
            0x04 => Ok(CpuComponent::Revision),
            _ => Err(number),
        }
    }

    /// The full path of this component: `Device`, `Cpu`, then its own byte.
    pub fn to_cid_path(self) -> (path: [u8; 3])
        ensures
            path@ == seq![
                ComponentRoot::Device.spec_code(),
                DeviceComponent::Cpu.spec_code(),
                self.spec_code(),
            ],
    {
        let path = [ComponentRoot::Device.code(), DeviceComponent::Cpu.code(), self.code()];
        assert(path@ =~= seq![
            ComponentRoot::Device.spec_code(),
            DeviceComponent::Cpu.spec_code(),
            self.spec_code(),
        ]);
        path
    }
}

/// Components below the `Platform` root.
#[derive(Copy, Clone, PartialEq, Eq, Debug, Structural)]
pub enum PlatformComponent {
    Meta,
    EeeProm,
    Network,
    Temperature,
    Sntp,
}

impl PlatformComponent {
    /// The byte that stands for this component in a path.
    pub fn code(self) -> (code: u8)
        ensures
            code == match self {
                PlatformComponent::Meta => 0x00u8,
                PlatformComponent::EeeProm => 0x10u8,
                PlatformComponent::Network => 0x11u8,
                PlatformComponent::Temperature => 0x12u8,
                PlatformComponent::Sntp => 0x13u8,
            },
    {
        match self {
            PlatformComponent::Meta => 0x00,
            PlatformComponent::EeeProm => 0x10,
            PlatformComponent::Network => 0x11,
            PlatformComponent::Temperature => 0x12,
            PlatformComponent::Sntp => 0x13,
        }
    }
}

/// Components below `Platform`/`Meta`.
#[derive(Copy, Clone, PartialEq, Eq, Debug, Structural)]
pub enum MetaInformation {
    Version,
}

impl MetaInformation {
    /// The byte that stands for this component in a path.
    pub fn code(self) -> (code: u8)
        ensures
            code == 0x00,
    {
        0x00
    }
}

/// Components below `Platform`/`EeeProm`.
#[derive(Copy, Clone, PartialEq, Eq, Debug, Structural)]
pub enum EeePromComponent {
    MagicCrcStart,
}

impl EeePromComponent {
    /// The byte that stands for this component in a path.
    pub fn code(self) -> (code: u8)
        ensures
            code == 0x10,
    {
        0x10
    }
}

/// Components below `Platform`/`Network`.
#[derive(Copy, Clone, PartialEq, Eq, Debug, Structural)]
pub enum NetworkComponent {
    Mac,
    Ip,
    Subnet,
    Gateway,
}

impl NetworkComponent {
    /// The byte that stands for this component in a path.
    pub fn code(self) -> (code: u8)
        ensures
            code == match self {
                NetworkComponent::Mac => 0x10u8,
                NetworkComponent::Ip => 0x11u8,
                NetworkComponent::Subnet => 0x12u8,
                NetworkComponent::Gateway => 0x13u8,
            },
    {
        match self {
            NetworkComponent::Mac => 0x10,
            NetworkComponent::Ip => 0x11,
            NetworkComponent::Subnet => 0x12,
            NetworkComponent::Gateway => 0x13,
        }
    }
}

/// Components below `Platform`/`Temperature`.
#[derive(Copy, Clone, PartialEq, Eq, Debug, Structural)]
pub enum TemperatureComponent {
    Value,
}

impl TemperatureComponent {
    /// The byte that stands for this component in a path.
    pub fn code(self) -> (code: u8)
        ensures
            code == 0x00,
    {
        0x00
    }
}

/// Components below `Platform`/`Sntp`.
#[derive(Copy, Clone, PartialEq, Eq, Debug, Structural)]
pub enum SntpComponent {
    CurrentTimeMillis,
    LastOffsetMillis,
    LastUpdateMillis,
}

impl SntpComponent {
    /// The byte that stands for this component in a path.
    pub fn code(self) -> (code: u8)
        ensures
            code == match self {
                SntpComponent::CurrentTimeMillis => 0x00u8,
                SntpComponent::LastOffsetMillis => 0x01u8,
                SntpComponent::LastUpdateMillis => 0x02u8,
            },
    {
        match self {
            SntpComponent::CurrentTimeMillis => 0x00,
            SntpComponent::LastOffsetMillis => 0x01,
            SntpComponent::LastUpdateMillis => 0x02,
        }
    }
}

/// The three bytes that follow the `Module` root in the path of a module's
/// property.
#[derive(Copy, Clone, PartialEq, Eq, Debug, Structural)]
pub struct ModuleId {
    pub group: u8,
    pub id: u8,
    pub ext: u8,
}

/// Components below the `Module` root.
pub enum ModuleComponent<'a> {
    Other(&'a [u8]),
}

/// A property path as it goes on the wire: a length byte, then the path.
pub struct PropertyId<'a>(&'a [u8]);

impl<'a> PropertyId<'a> {
    /// The path that this id holds.
    pub closed spec fn path(&self) -> Seq<u8> {
        self.0@
    }

    /// The bytes that stand for a path on the wire: its length, clipped to
    /// 255, then that many of its bytes.
    pub open spec fn encoding_of(path: Seq<u8>) -> Seq<u8> {
        seq![clip_to_u8(path.len())] + path.take(clip_to_u8(path.len()) as int)
    }

    pub fn from_slice(slice: &'a [u8]) -> (id: Self)
        ensures
            id.path() == slice@,
    {
        Self(slice)
    }

    /// Appends the encoding of this path and returns its length.
    pub fn write<W: Write>(&self, writer: &mut W) -> (r: Result<usize, Error>)
        ensures
            appended(
                old(writer).written(),
                old(writer).room(),
                final(writer).written(),
                final(writer).room(),
                PropertyId::encoding_of(self.path()),
                r,
            ),
    {
        let data = self.0;
        let len = clip_len(data.len());
        Ok(writer.write_u8(len)? + writer.write_all(slice_subrange(data, 0, len as usize))?)
    }
}

impl<'a> From<&'a [u8]> for PropertyId<'a> {
    fn from(slice: &'a [u8]) -> (id: Self) {
        PropertyId(slice)
    }
}

impl<'a> PropertyId<'a> {
    /// The id made from a slice holds that slice as its path.
    pub proof fn converted_path(slice: &'a [u8])
        ensures
            <PropertyId<'a> as vstd::std_specs::convert::FromSpec<&'a [u8]>>::from_spec(
                slice,
            ).path() == slice@,
    {
    }
}

impl<'a> vstd::std_specs::convert::FromSpecImpl<&'a [u8]> for PropertyId<'a> {
    open spec fn obeys_from_spec() -> bool {
        true
    }

    closed spec fn from_spec(slice: &'a [u8]) -> Self {
        PropertyId(slice)
    }
}

/// A hint at what it costs to query a property, with an optional estimate
/// of the time in milliseconds. On the wire an estimate of zero stands for
/// "no estimate", so a valid value holds no `Some(0)`.
#[derive(Copy, Clone, PartialEq, Eq, Debug, Structural)]
pub enum QueryComplexity {
    Unknown,
    Low { estimated_millis: Option<u16> },
    High { estimated_millis: Option<u16> },
}

/// The two bytes of `value`, most significant first.
pub open spec fn big_endian_u16(value: u16) -> Seq<u8> {
    seq![(value / 256) as u8, (value % 256) as u8]
}

/// The number whose two bytes, most significant first, are `high` and `low`.
pub open spec fn u16_from_big_endian(high: u8, low: u8) -> u16 {
    (high * 256 + low) as u16
}

/// The estimate as it goes on the wire: zero where there is none.
pub open spec fn millis_on_wire(estimated_millis: Option<u16>) -> u16 {
    match estimated_millis {
        Some(millis) => millis,
        None => 0,
    }
}

/// The estimate that a number on the wire stands for.
pub open spec fn millis_from_wire(value: u16) -> Option<u16> {
    if value == 0 {
        None
    } else {
        Some(value)
    }
}

impl QueryComplexity {
    /// Whether this value holds no estimate of zero milliseconds.
    pub open spec fn is_valid(self) -> bool {
        match self {
            QueryComplexity::Unknown => true,
            QueryComplexity::Low { estimated_millis } => estimated_millis != Some(0u16),
            QueryComplexity::High { estimated_millis } => estimated_millis != Some(0u16),
        }
    }

    /// Whether `tag` is one of the assigned complexity tags.
    pub open spec fn is_assigned_tag(tag: u8) -> bool {
        tag == 0x00 || tag == 0x10 || tag == 0x20
    }

    /// The bytes that stand for this complexity on the wire.
    pub open spec fn encoding(self) -> Seq<u8> {
        match self {
            QueryComplexity::Unknown => seq![0x00u8],
            QueryComplexity::Low { estimated_millis } => seq![0x10u8] + big_endian_u16(
                millis_on_wire(estimated_millis),
            ),
            QueryComplexity::High { estimated_millis } => seq![0x20u8] + big_endian_u16(
                millis_on_wire(estimated_millis),
            ),
        }
    }

    /// What the leading bytes of `bytes` stand for: the complexity and the
    /// number of bytes it takes, or the reason why they are none.
    pub open spec fn decode(bytes: Seq<u8>) -> Result<(QueryComplexity, nat), Error> {
        if bytes.len() == 0 {
            Err(Error::UnexpectedEOF)
        } else if bytes[0] == 0x00 {
            Ok((QueryComplexity::Unknown, 1nat))
        } else if bytes[0] == 0x10 || bytes[0] == 0x20 {
            if bytes.len() < 3 {
                Err(Error::UnexpectedEOF)
            } else {
                let estimated_millis = millis_from_wire(u16_from_big_endian(bytes[1], bytes[2]));
                if bytes[0] == 0x10 {
                    Ok((QueryComplexity::Low { estimated_millis }, 3nat))
                } else {
                    Ok((QueryComplexity::High { estimated_millis }, 3nat))
                }
            }
        } else {
            Err(Error::UnknownTypeIdentifier)
        }
    }

    pub fn high() -> (c: Self)
        ensures
            c == (QueryComplexity::High { estimated_millis: None }),
    {
        QueryComplexity::High { estimated_millis: None }
    }

    pub fn low() -> (c: Self)
        ensures
            c == (QueryComplexity::Low { estimated_millis: None }),
    {
        QueryComplexity::Low { estimated_millis: None }
    }

    /// Reads one complexity, consuming exactly the bytes that encode it.
    pub fn read<R: Read>(reader: &mut R) -> (r: Result<Self, Error>)
        ensures
            consumed(
                old(reader).remaining(),
                final(reader).remaining(),
                QueryComplexity::decode(old(reader).remaining()),
                r,
            ),
            r is Ok ==> r->Ok_0.is_valid(),
    {
        Ok(
            match reader.read_u8()? {
                0x00 => QueryComplexity::Unknown,
                0x10 => QueryComplexity::Low { estimated_millis: read_millis(reader)? },
                0x20 => QueryComplexity::High { estimated_millis: read_millis(reader)? },
                _ => return Err(Error::UnknownTypeIdentifier),
            },
        )
    }

    /// Appends the encoding of this complexity and returns its length.
    pub fn write<W: Write>(&self, writer: &mut W) -> (r: Result<usize, Error>)
        ensures
            appended(
                old(writer).written(),
                old(writer).room(),
                final(writer).written(),
                final(writer).room(),
                self.encoding(),
                r,
            ),
    {
        match self {
            QueryComplexity::Unknown => writer.write_u8(0x00),
            QueryComplexity::Low { estimated_millis } => {
                Ok(writer.write_u8(0x10)? + write_millis(writer, *estimated_millis)?)
            },
            QueryComplexity::High { estimated_millis } => {
                Ok(writer.write_u8(0x20)? + write_millis(writer, *estimated_millis)?)
            },
        }
    }

    /// Decoding finds a valid complexity again at the head of any byte
    /// string that starts with its encoding, and takes exactly the
    /// encoding's length.
    pub proof fn round_trip(self, rest: Seq<u8>)
        requires
            self.is_valid(),
        ensures
            QueryComplexity::decode(self.encoding() + rest) == Ok::<(QueryComplexity, nat), Error>(
                (self, self.encoding().len()),
            ),
    {
        let bytes = self.encoding() + rest;
        assert(bytes[0] == self.encoding()[0]);
        if self.encoding().len() > 1 {
            assert(bytes[1] == self.encoding()[1]);
            assert(bytes[2] == self.encoding()[2]);
        }
    }

    /// A first byte outside the assigned tags is refused.
    pub proof fn unassigned_tag_is_refused(bytes: Seq<u8>)
        requires
            bytes.len() > 0,
            !QueryComplexity::is_assigned_tag(bytes[0]),
        ensures
            QueryComplexity::decode(bytes) == Err::<(QueryComplexity, nat), Error>(
                Error::UnknownTypeIdentifier,
            ),
    {
    }

    /// Every proper prefix of an encoding ends before the complexity does.
    pub proof fn truncated_is_incomplete(self, kept: int)
        requires
            0 <= kept < self.encoding().len(),
        ensures
            QueryComplexity::decode(self.encoding().take(kept)) == Err::<
                (QueryComplexity, nat),
                Error,
            >(Error::UnexpectedEOF),
    {
        let bytes = self.encoding().take(kept);
        if kept > 0 {
            assert(bytes[0] == self.encoding()[0]);
        }
    }
}

/// Reads the two bytes of an estimate.
fn read_millis<R: Read>(reader: &mut R) -> (r: Result<Option<u16>, Error>)
    ensures
        old(reader).remaining().len() >= 2 ==> r == Ok::<Option<u16>, Error>(
            millis_from_wire(
                u16_from_big_endian(old(reader).remaining()[0], old(reader).remaining()[1]),
            ),
        ) && final(reader).remaining() =~= old(reader).remaining().skip(2),
        old(reader).remaining().len() < 2 ==> r == Err::<Option<u16>, Error>(
            Error::UnexpectedEOF,
        ),
{
    let mut millis = [0u8;2];
    reader.read_all(&mut millis)?;
    let value: u16 = millis[0] as u16 * 256 + millis[1] as u16;
    Ok(
        if value == 0 {
            None
        } else {
            Some(value)
        },
    )
}

/// Appends the two bytes of an estimate.
fn write_millis<W: Write>(writer: &mut W, estimated_millis: Option<u16>) -> (r: Result<
    usize,
    Error,
>)
    ensures
        appended(
            old(writer).written(),
            old(writer).room(),
            final(writer).written(),
            final(writer).room(),
            big_endian_u16(millis_on_wire(estimated_millis)),
            r,
        ),
        r is Err ==> final(writer).written() == old(writer).written(),
{
    let value: u16 = match estimated_millis {
        Some(millis) => millis,
        None => 0,
    };
    let bytes = [(value / 256) as u8, (value % 256) as u8];
    assert(bytes@ =~= big_endian_u16(value));
    writer.write_all(bytes.as_slice())
}

/// What a property report says, as mathematical values: the model of both
/// a registry entry and a decoded report.
pub struct ReportView {
    pub id: Seq<u8>,
    pub type_hint: Option<Type>,
    pub description: Option<Seq<char>>,
    pub complexity: QueryComplexity,
    pub read: bool,
    pub write: bool,
}

/// The feature byte of a report: bit 7 says that a type hint follows, bit 6
/// that a description follows, bit 5 that the property can be read, bit 4
/// that it can be written. The low four bits are zero.
pub open spec fn feature_byte(type_hint: bool, description: bool, read: bool, write: bool) -> u8 {
    ((if type_hint {
        0x80int
    } else {
        0int
    }) + (if description {
        0x40int
    } else {
        0int
    }) + (if read {
        0x20int
    } else {
        0int
    }) + (if write {
        0x10int
    } else {
        0int
    })) as u8
}

/// A text as it goes on the wire: the length of its UTF-8 form, clipped to
/// 255, then that many of its bytes.
pub open spec fn text_encoding(text: Seq<char>) -> Seq<u8> {
    let bytes = encode_utf8(text);
    seq![clip_to_u8(bytes.len())] + bytes.take(clip_to_u8(bytes.len()) as int)
}

/// The text that ill-formed UTF-8 turns into when every invalid sequence is
/// replaced by U+FFFD.
pub uninterp spec fn replaced_utf8(bytes: Seq<u8>) -> Seq<char>;

/// The text that bytes from the wire are read as: their decoding where they
/// are well-formed UTF-8, and the text with replacement characters where
/// they are not.
pub open spec fn lossy_text(bytes: Seq<u8>) -> Seq<char> {
    if valid_utf8(bytes) {
        decode_utf8(bytes)
    } else {
        replaced_utf8(bytes)
    }
}

impl ReportView {
    /// Whether this report can be written without loss: the id and the
    /// description fit their one-byte length fields and the complexity
    /// holds no estimate of zero.
    pub open spec fn fits(self) -> bool {
        &&& self.id.len() <= 255
        &&& self.description matches Some(text) ==> encode_utf8(text).len() <= 255
        &&& self.complexity.is_valid()
    }

    /// The encoding of everything but the id: the feature byte, the type
    /// hint if there is one, the description if there is one, and the
    /// complexity.
    pub open spec fn encoding_without_id(self) -> Seq<u8> {
        seq![
            feature_byte(
                self.type_hint is Some,
                self.description is Some,
                self.read,
                self.write,
            ),
        ] + optional_type_encoding(self.type_hint) + optional_text_encoding(self.description)
            + self.complexity.encoding()
    }

    /// The bytes that stand for this report on the wire.
    pub open spec fn encoding(self) -> Seq<u8> {
        PropertyId::encoding_of(self.id) + self.encoding_without_id()
    }

    /// What the leading bytes of `bytes` stand for once the id is known:
    /// the rest of a report and the number of bytes it takes.
    pub open spec fn decode_without_id(id: Seq<u8>, bytes: Seq<u8>) -> Result<
        (ReportView, nat),
        Error,
    > {
        if bytes.len() == 0 {
            Err(Error::UnexpectedEOF)
        } else {
            let header = bytes[0];
            match decode_optional_type(header & 0x80 != 0, bytes.skip(1)) {
                Err(e) => Err(e),
                Ok((type_hint, n)) => match decode_optional_text(
                    header & 0x40 != 0,
                    bytes.skip(1 + n as int),
                ) {
                    Err(e) => Err(e),
                    Ok((description, m)) => match QueryComplexity::decode(
                        bytes.skip(1 + n as int + m as int),
                    ) {
                        Err(e) => Err(e),
                        Ok((complexity, k)) => Ok(
                            (
                                ReportView {
                                    id,
                                    type_hint,
                                    description,
                                    complexity,
                                    read: header & 0x20 != 0,
                                    write: header & 0x10 != 0,
                                },
                                1 + n + m + k,
                            ),
                        ),
                    },
                },
            }
        }
    }

    /// What the leading bytes of `bytes` stand for: the report and the
    /// number of bytes it takes, or the reason why they are none.
    pub open spec fn decode(bytes: Seq<u8>) -> Result<(ReportView, nat), Error> {
        match decode_counted_bytes(bytes) {
            Err(e) => Err(e),
            Ok((id, n)) => match ReportView::decode_without_id(id, bytes.skip(n as int)) {
                Err(e) => Err(e),
                Ok((report, m)) => Ok((report, n + m)),
            },
        }
    }
}

/// A length byte and as many bytes as it says.
pub open spec fn decode_counted_bytes(bytes: Seq<u8>) -> Result<(Seq<u8>, nat), Error> {
    if bytes.len() == 0 || bytes.len() < 1 + bytes[0] {
        Err(Error::UnexpectedEOF)
    } else {
        Ok((bytes.subrange(1, 1 + bytes[0]), (1 + bytes[0]) as nat))
    }
}

/// A type hint where the feature byte announces one.
pub open spec fn decode_optional_type(present: bool, bytes: Seq<u8>) -> Result<
    (Option<Type>, nat),
    Error,
> {
    if present {
        match Type::decode(bytes) {
            Ok((t, n)) => Ok((Some(t), n)),
            Err(e) => Err(e),
        }
    } else {
        Ok((None, 0nat))
    }
}

/// A description where the feature byte announces one.
pub open spec fn decode_optional_text(present: bool, bytes: Seq<u8>) -> Result<
    (Option<Seq<char>>, nat),
    Error,
> {
    if present {
        match decode_counted_bytes(bytes) {
            Ok((text, n)) => Ok((Some(lossy_text(text)), n)),
            Err(e) => Err(e),
        }
    } else {
        Ok((None, 0nat))
    }
}

/// The encoding of a type hint that may be absent.
pub open spec fn optional_type_encoding(type_hint: Option<Type>) -> Seq<u8> {
    match type_hint {
        Some(t) => t.encoding(),
        None => Seq::<u8>::empty(),
    }
}

/// The encoding of a description that may be absent.
pub open spec fn optional_text_encoding(description: Option<Seq<char>>) -> Seq<u8> {
    match description {
        Some(text) => text_encoding(text),
        None => Seq::<u8>::empty(),
    }
}

/// The view of a description that may be absent.
pub open spec fn optional_text_view(description: Option<&str>) -> Option<Seq<char>> {
    match description {
        Some(text) => Some(text@),
        None => None,
    }
}

/// Appends a type hint if there is one.
fn write_optional_type<W: Write>(writer: &mut W, type_hint: Option<Type>) -> (r: Result<
    usize,
    Error,
>)
    ensures
        appended(
            old(writer).written(),
            old(writer).room(),
            final(writer).written(),
            final(writer).room(),
            optional_type_encoding(type_hint),
            r,
        ),
{
    match type_hint {
        Some(ty) => ty.write(writer),
        None => {
            assert(writer.written() =~= writer.written() + Seq::<u8>::empty());
            Ok(0)
        },
    }
}

/// Appends a description if there is one: its length in bytes, clipped to
/// 255, then that many bytes.
fn write_optional_text<W: Write>(writer: &mut W, description: Option<&str>) -> (r: Result<
    usize,
    Error,
>)
    ensures
        appended(
            old(writer).written(),
            old(writer).room(),
            final(writer).written(),
            final(writer).room(),
            optional_text_encoding(optional_text_view(description)),
            r,
        ),
{
    match description {
        Some(text) => {
            let bytes = text.as_bytes();
            let len = clip_len(bytes.len());
            Ok(writer.write_u8(len)? + writer.write_all(slice_subrange(bytes, 0, len as usize))?)
        },
        None => {
            assert(writer.written() =~= writer.written() + Seq::<u8>::empty());
            Ok(0)
        },
    }
}

/// Appends the feature byte and the type hint.
fn write_report_head<W: Write>(writer: &mut W, header: u8, type_hint: Option<Type>) -> (r: Result<
    usize,
    Error,
>)
    ensures
        appended(
            old(writer).written(),
            old(writer).room(),
            final(writer).written(),
            final(writer).room(),
            seq![header] + optional_type_encoding(type_hint),
            r,
        ),
{
    Ok(writer.write_u8(header)? + write_optional_type(writer, type_hint)?)
}

/// Appends the description and the complexity.
fn write_report_tail<W: Write>(
    writer: &mut W,
    description: Option<&str>,
    complexity: &QueryComplexity,
) -> (r: Result<usize, Error>)
    ensures
        appended(
            old(writer).written(),
            old(writer).room(),
            final(writer).written(),
            final(writer).room(),
            optional_text_encoding(optional_text_view(description)) + complexity.encoding(),
            r,
        ),
{
    Ok(write_optional_text(writer, description)? + complexity.write(writer)?)
}

/// Appends everything of a report but its id and returns the number of
/// bytes appended.
pub fn write_report_fields<W: Write>(
    writer: &mut W,
    type_hint: Option<Type>,
    description: Option<&str>,
    complexity: &QueryComplexity,
    read: bool,
    write: bool,
) -> (r: Result<usize, Error>)
    ensures
        appended(
            old(writer).written(),
            old(writer).room(),
            final(writer).written(),
            final(writer).room(),
            (ReportView {
                id: Seq::<u8>::empty(),
                type_hint,
                description: optional_text_view(description),
                complexity: *complexity,
                read,
                write,
            }).encoding_without_id(),
            r,
        ),
{
    let header: u8 = (if type_hint.is_some() {
        0x80u8
    } else {
        0u8
    }) + (if description.is_some() {
        0x40u8
    } else {
        0u8
    }) + (if read {
        0x20u8
    } else {
        0u8
    }) + (if write {
        0x10u8
    } else {
        0u8
    });
    assert(header == feature_byte(type_hint is Some, description is Some, read, write));
    let ghost head = seq![header] + optional_type_encoding(type_hint);
    let ghost tail = optional_text_encoding(optional_text_view(description))
        + complexity.encoding();
    assert((ReportView {
        id: Seq::<u8>::empty(),
        type_hint,
        description: optional_text_view(description),
        complexity: *complexity,
        read,
        write,
    }).encoding_without_id() =~= head + tail);
    Ok(write_report_head(writer, header, type_hint)? + write_report_tail(
        writer,
        description,
        complexity,
    )?)
}

/// `String::from_utf8_lossy` of std, with its result made an owned string.
/// Well-formed UTF-8 comes back as the text it encodes; in anything else
/// each invalid sequence is replaced by U+FFFD, which the contract names
/// without spelling it out.
#[verifier::external_body]
fn string_from_utf8_lossy(bytes: &[u8]) -> (text: String)
    ensures
        valid_utf8(bytes@) ==> text@ == decode_utf8(bytes@),
        !valid_utf8(bytes@) ==> text@ == replaced_utf8(bytes@),
{
    String::from_utf8_lossy(bytes).into_owned()
}

/// Collects the value that a property's reader writes. It takes no more
/// bytes than the response has room for.
pub struct ValueBuffer {
    bytes: Vec<u8>,
    limit: usize,
}

impl ValueBuffer {
    /// An empty buffer that takes up to `limit` bytes.
    pub fn with_room(limit: usize) -> (buffer: Self)
        ensures
            buffer.written() == Seq::<u8>::empty(),
            buffer.room() == limit,
    {
        ValueBuffer { bytes: Vec::new(), limit }
    }

    /// What has been written so far.
    pub fn as_slice(&self) -> (bytes: &[u8])
        ensures
            bytes@ == self.written(),
    {
        self.bytes.as_slice()
    }
}

impl Write for ValueBuffer {
    closed spec fn written(&self) -> Seq<u8> {
        self.bytes@
    }

    closed spec fn room(&self) -> nat {
        if self.bytes@.len() <= self.limit {
            (self.limit - self.bytes@.len()) as nat
        } else {
            0
        }
    }

    fn write_u8(&mut self, value: u8) -> (r: Result<usize, Error>) {
        if self.bytes.len() >= self.limit {
            Err(Error::BufferToSmall)
        } else {
            self.bytes.push(value);
            Ok(1)
        }
    }

    fn available(&self) -> (n: usize) {
        if self.bytes.len() <= self.limit {
            self.limit - self.bytes.len()
        } else {
            0
        }
    }
}

/// What reads the value of a property: given the platform and the
/// property's own target, it writes the value into the buffer.
pub type ReadFn<P, T> = fn(&mut P, &mut T, &mut ValueBuffer) -> Result<usize, Error>;

/// What stores a new value of a property: given the platform and the
/// property's own target, it takes the value from the bytes.
pub type WriteFn<P, T> = fn(&mut P, &mut T, &mut &[u8]) -> Result<usize, Error>;

/// One entry of a property table: the path below which the property lives,
/// what describes it, and what reads and writes it. `RF` is the type of
/// what reads it, a function like `ReadFn`; `WF` the type of what writes
/// it, a function like `WriteFn`.
pub struct Property<RF, WF> {
    pub id: &'static [u8],
    pub type_hint: Option<Type>,
    pub description: Option<&'static str>,
    pub complexity: QueryComplexity,
    pub read: Option<RF>,
    pub write: Option<WF>,
}

impl<RF, WF> Property<RF, WF> {
    /// What a report on this property says: its description as it stands,
    /// readable where there is something to read it, writable where there
    /// is something to write it.
    pub open spec fn report(&self) -> ReportView {
        ReportView {
            id: self.id@,
            type_hint: self.type_hint,
            description: optional_text_view(self.description),
            complexity: self.complexity,
            read: self.read is Some,
            write: self.write is Some,
        }
    }
}

/// A record that describes one property: what a device answers, per
/// property, when it is asked to list its components with reports.
#[derive(Debug)]
pub struct PropertyReportV1 {
    pub id: Vec<u8>,
    pub type_hint: Option<Type>,
    pub description: Option<String>,
    pub complexity: QueryComplexity,
    pub read: bool,
    pub write: bool,
}

impl View for PropertyReportV1 {
    type V = ReportView;

    open spec fn view(&self) -> ReportView {
        ReportView {
            id: self.id@,
            type_hint: self.type_hint,
            description: match self.description {
                Some(text) => Some(text@),
                None => None,
            },
            complexity: self.complexity,
            read: self.read,
            write: self.write,
        }
    }
}

/// Reads a length byte and as many bytes as it says; consumes only the
/// length byte when fewer are left.
fn read_counted_bytes<R: Read>(reader: &mut R) -> (r: Result<Vec<u8>, Error>)
    ensures
        match decode_counted_bytes(old(reader).remaining()) {
            Ok((bytes, count)) => r is Ok && r->Ok_0@ == bytes && count <= old(
                reader,
            ).remaining().len() && final(reader).remaining() =~= old(reader).remaining().skip(
                count as int,
            ),
            Err(e) => r is Err && r->Err_0 == e,
        },
{
    let len = reader.read_u8()? as usize;
    let mut bytes: Vec<u8> = vec![0u8; len];
    reader.read_all(bytes.as_mut_slice())?;
    assert(bytes@ =~= old(reader).remaining().subrange(1, 1 + len));
    Ok(bytes)
}

impl PropertyReportV1 {
    /// The report on one entry of a property table.
    pub fn from_property<RF, WF>(property: &Property<RF, WF>) -> (report: Self)
        ensures
            report@ == property.report(),
    {
        PropertyReportV1 {
            id: slice_to_vec(property.id),
            type_hint: property.type_hint,
            description: match property.description {
                Some(text) => Some(text.to_owned()),
                None => None,
            },
            complexity: property.complexity,
            read: property.read.is_some(),
            write: property.write.is_some(),
        }
    }

    /// Appends the encoding of this report, id first, and returns its
    /// length.
    pub fn write<W: Write>(&self, writer: &mut W) -> (r: Result<usize, Error>)
        ensures
            appended(
                old(writer).written(),
                old(writer).room(),
                final(writer).written(),
                final(writer).room(),
                self@.encoding(),
                r,
            ),
    {
        let id_len = clip_len(self.id.len());
        Ok(
            writer.write_u8(id_len)? + writer.write_all(
                slice_subrange(self.id.as_slice(), 0, id_len as usize),
            )? + self.write_no_id(writer)?,
        )
    }

    /// Appends the encoding of this report without its id and returns the
    /// number of bytes appended.
    pub fn write_no_id<W: Write>(&self, writer: &mut W) -> (r: Result<usize, Error>)
        ensures
            appended(
                old(writer).written(),
                old(writer).room(),
                final(writer).written(),
                final(writer).room(),
                self@.encoding_without_id(),
                r,
            ),
    {
        let description: Option<&str> = match &self.description {
            Some(text) => Some(text.as_str()),
            None => None,
        };
        assert(optional_text_view(description) == self@.description);
        write_report_fields(
            writer,
            self.type_hint,
            description,
            &self.complexity,
            self.read,
            self.write,
        )
    }

    /// Reads one report, consuming exactly the bytes that encode it. Any
    /// combination of feature bits is accepted.
    pub fn read<R: Read>(reader: &mut R) -> (r: Result<Self, Error>)
        ensures
            match ReportView::decode(old(reader).remaining()) {
                Ok((report, count)) => r is Ok && r->Ok_0@ == report && count <= old(
                    reader,
                ).remaining().len() && final(reader).remaining() =~= old(
                    reader,
                ).remaining().skip(count as int),
                Err(e) => r is Err && r->Err_0 == e,
            },
    {
        let ghost all = reader.remaining();
        let id = read_counted_bytes(reader)?;
        let ghost fields = reader.remaining();
        let report = read_report_fields(id, reader)?;
        assert(reader.remaining() =~= all.skip(
            (all.len() - fields.len()) + (fields.len() - reader.remaining().len()),
        ));
        Ok(report)
    }
}

/// Reads everything of a report but its id.
fn read_report_fields<R: Read>(id: Vec<u8>, reader: &mut R) -> (r: Result<
    PropertyReportV1,
    Error,
>)
    ensures
        match ReportView::decode_without_id(id@, old(reader).remaining()) {
            Ok((report, count)) => r is Ok && r->Ok_0@ == report && count <= old(
                reader,
            ).remaining().len() && final(reader).remaining() =~= old(reader).remaining().skip(
                count as int,
            ),
            Err(e) => r is Err && r->Err_0 == e,
        },
{
    let ghost fields = reader.remaining();
    let header = reader.read_u8()?;
    let ghost after_header = reader.remaining();
    let ty = read_optional_type(header & 0x80 != 0, reader)?;
    let ghost after_type = reader.remaining();
    let ghost n = (after_header.len() - after_type.len()) as nat;
    assert(after_type =~= fields.skip(1 + n as int));
    let desc = read_optional_text(header & 0x40 != 0, reader)?;
    let ghost after_text = reader.remaining();
    let ghost m = (after_type.len() - after_text.len()) as nat;
    assert(after_text =~= fields.skip(1 + n as int + m as int));
    let complexity = QueryComplexity::read(reader)?;
    let ghost k = (after_text.len() - reader.remaining().len()) as nat;
    assert(reader.remaining() =~= fields.skip((1 + n + m + k) as int));
    Ok(
        PropertyReportV1 {
            id,
            type_hint: ty,
            description: desc,
            complexity,
            read: header & 0x20 != 0,
            write: header & 0x10 != 0,
        },
    )
}

/// Reads a type hint where the feature byte announces one.
fn read_optional_type<R: Read>(present: bool, reader: &mut R) -> (r: Result<Option<Type>, Error>)
    ensures
        consumed(
            old(reader).remaining(),
            final(reader).remaining(),
            decode_optional_type(present, old(reader).remaining()),
            r,
        ),
{
    if present {
        Ok(Some(Type::read(reader)?))
    } else {
        assert(reader.remaining() =~= reader.remaining().skip(0));
        Ok(None)
    }
}

/// Reads a description where the feature byte announces one.
fn read_optional_text<R: Read>(present: bool, reader: &mut R) -> (r: Result<
    Option<String>,
    Error,
>)
    ensures
        match decode_optional_text(present, old(reader).remaining()) {
            Ok((text, count)) => r is Ok && count <= old(reader).remaining().len() && (match (
                r->Ok_0,
                text,
            ) {
                (Some(read), Some(expected)) => read@ == expected,
                (None, None) => true,
                _ => false,
            }) && final(reader).remaining() =~= old(reader).remaining().skip(count as int),
            Err(e) => r is Err && r->Err_0 == e,
        },
{
    if present {
        let bytes = read_counted_bytes(reader)?;
        Ok(Some(string_from_utf8_lossy(bytes.as_slice())))
    } else {
        assert(reader.remaining() =~= reader.remaining().skip(0));
        Ok(None)
    }
}

/// Which bits of a byte are set, in terms of its value.
proof fn feature_bits(header: u8)
    ensures
        (header & 0x80 != 0) == (header >= 128),
        (header & 0x40 != 0) == (header % 128 >= 64),
        (header & 0x20 != 0) == (header % 64 >= 32),
        (header & 0x10 != 0) == (header % 32 >= 16),
{
    assert((header & 0x80 != 0) == (header >= 128)) by (bit_vector);
    assert((header & 0x40 != 0) == (header % 128 >= 64)) by (bit_vector);
    assert((header & 0x20 != 0) == (header % 64 >= 32)) by (bit_vector);
    assert((header & 0x10 != 0) == (header % 32 >= 16)) by (bit_vector);
}

/// A length byte and the bytes it counts are read back as those bytes.
proof fn counted_bytes_round_trip(bytes: Seq<u8>, rest: Seq<u8>)
    requires
        bytes.len() <= 255,
    ensures
        decode_counted_bytes(seq![bytes.len() as u8] + bytes + rest) == Ok::<
            (Seq<u8>, nat),
            Error,
        >((bytes, 1 + bytes.len())),
{
    let all = seq![bytes.len() as u8] + bytes + rest;
    assert(all[0] == bytes.len() as u8);
    assert(all.subrange(1, 1 + bytes.len() as int) =~= bytes);
}

impl ReportView {
    /// Decoding finds a report that fits again at the head of any byte
    /// string that starts with its encoding, and takes exactly the
    /// encoding's length.
    pub proof fn round_trip(self, rest: Seq<u8>)
        requires
            self.fits(),
        ensures
            ReportView::decode(self.encoding() + rest) == Ok::<(ReportView, nat), Error>(
                (self, self.encoding().len()),
            ),
    {
        let fields = self.encoding_without_id();
        let bytes = self.encoding() + rest;
        assert(self.id.take(self.id.len() as int) =~= self.id);
        assert(bytes =~= seq![self.id.len() as u8] + self.id + (fields + rest));
        counted_bytes_round_trip(self.id, fields + rest);
        assert(bytes.skip(1 + self.id.len() as int) =~= fields + rest);
        self.round_trip_without_id(rest);
    }

    /// Decoding finds the fields of a report that fits again once its id
    /// is known.
    #[verifier::rlimit(60)]
    #[verifier::spinoff_prover]
    pub proof fn round_trip_without_id(self, rest: Seq<u8>)
        requires
            self.fits(),
        ensures
            ReportView::decode_without_id(self.id, self.encoding_without_id() + rest) == Ok::<
                (ReportView, nat),
                Error,
            >((self, self.encoding_without_id().len())),
    {
        let header = feature_byte(
            self.type_hint is Some,
            self.description is Some,
            self.read,
            self.write,
        );
        let hint = optional_type_encoding(self.type_hint);
        let text = optional_text_encoding(self.description);
        let complexity = self.complexity.encoding();
        let bytes = self.encoding_without_id() + rest;
        let after_hint = 1 + hint.len() as int;
        let after_text = after_hint + text.len() as int;
        assert(bytes[0] == header);
        feature_byte_round_trip(
            self.type_hint is Some,
            self.description is Some,
            self.read,
            self.write,
        );
        assert(decode_optional_type(header & 0x80 != 0, bytes.skip(1)) == Ok::<
            (Option<Type>, nat),
            Error,
        >((self.type_hint, hint.len()))) by {
            assert(bytes.skip(1) =~= hint + (text + complexity + rest));
            optional_type_round_trip(self.type_hint, text + complexity + rest);
        }
        assert(decode_optional_text(header & 0x40 != 0, bytes.skip(after_hint)) == Ok::<
            (Option<Seq<char>>, nat),
            Error,
        >((self.description, text.len()))) by {
            assert(bytes.skip(after_hint) =~= text + (complexity + rest));
            optional_text_round_trip(self.description, complexity + rest);
        }
        assert(QueryComplexity::decode(bytes.skip(after_text)) == Ok::<
            (QueryComplexity, nat),
            Error,
        >((self.complexity, complexity.len()))) by {
            assert(bytes.skip(after_text) =~= complexity + rest);
            self.complexity.round_trip(rest);
        }
        assert(self.encoding_without_id().len() == 1 + hint.len() + text.len()
            + complexity.len());
    }
}

/// Each flag is read back from its bit of the feature byte.
proof fn feature_byte_round_trip(type_hint: bool, description: bool, read: bool, write: bool)
    ensures
        (feature_byte(type_hint, description, read, write) & 0x80 != 0) == type_hint,
        (feature_byte(type_hint, description, read, write) & 0x40 != 0) == description,
        (feature_byte(type_hint, description, read, write) & 0x20 != 0) == read,
        (feature_byte(type_hint, description, read, write) & 0x10 != 0) == write,
{
    feature_bits(feature_byte(type_hint, description, read, write));
}

/// A type hint that may be absent is read back as it was written.
proof fn optional_type_round_trip(type_hint: Option<Type>, rest: Seq<u8>)
    ensures
        decode_optional_type(type_hint is Some, optional_type_encoding(type_hint) + rest) == Ok::<
            (Option<Type>, nat),
            Error,
        >((type_hint, optional_type_encoding(type_hint).len())),
{
    match type_hint {
        Some(t) => t.round_trip(rest),
        None => {},
    }
}

/// A description that may be absent, and whose UTF-8 form fits a one-byte
/// length, is read back as it was written.
proof fn optional_text_round_trip(description: Option<Seq<char>>, rest: Seq<u8>)
    requires
        description matches Some(text) ==> encode_utf8(text).len() <= 255,
    ensures
        decode_optional_text(
            description is Some,
            optional_text_encoding(description) + rest,
        ) == Ok::<(Option<Seq<char>>, nat), Error>(
            (description, optional_text_encoding(description).len()),
        ),
{
    match description {
        Some(chars) => {
            let encoded = encode_utf8(chars);
            assert(encoded.take(encoded.len() as int) =~= encoded);
            counted_bytes_round_trip(encoded, rest);
            vstd::utf8::encode_utf8_valid_utf8(chars);
            vstd::utf8::encode_utf8_decode_utf8(chars);
        },
        None => {},
    }
}

/// A length byte without all the bytes it counts ends too early.
proof fn counted_bytes_truncated(bytes: Seq<u8>, kept: int)
    requires
        bytes.len() <= 255,
        0 <= kept < 1 + bytes.len(),
    ensures
        decode_counted_bytes((seq![bytes.len() as u8] + bytes).take(kept)) == Err::<
            (Seq<u8>, nat),
            Error,
        >(Error::UnexpectedEOF),
{
    let all = (seq![bytes.len() as u8] + bytes).take(kept);
    if kept > 0 {
        assert(all[0] == bytes.len() as u8);
    }
}

/// A type hint cut short ends too early.
proof fn optional_type_truncated(type_hint: Option<Type>, kept: int)
    requires
        0 <= kept < optional_type_encoding(type_hint).len(),
    ensures
        decode_optional_type(type_hint is Some, optional_type_encoding(type_hint).take(kept))
            == Err::<(Option<Type>, nat), Error>(Error::UnexpectedEOF),
{
    match type_hint {
        Some(t) => t.truncated_is_incomplete(kept),
        None => {},
    }
}

/// A description cut short ends too early.
proof fn optional_text_truncated(description: Option<Seq<char>>, kept: int)
    requires
        description matches Some(text) ==> encode_utf8(text).len() <= 255,
        0 <= kept < optional_text_encoding(description).len(),
    ensures
        decode_optional_text(
            description is Some,
            optional_text_encoding(description).take(kept),
        ) == Err::<(Option<Seq<char>>, nat), Error>(Error::UnexpectedEOF),
{
    match description {
        Some(chars) => {
            let encoded = encode_utf8(chars);
            assert(encoded.take(encoded.len() as int) =~= encoded);
            counted_bytes_truncated(encoded, kept);
        },
        None => {},
    }
}

impl ReportView {
    /// Every proper prefix of the encoding of a report that fits ends
    /// before the report does.
    pub proof fn truncated_is_incomplete(self, kept: int)
        requires
            self.fits(),
            0 <= kept < self.encoding().len(),
        ensures
            ReportView::decode(self.encoding().take(kept)) == Err::<(ReportView, nat), Error>(
                Error::UnexpectedEOF,
            ),
    {
        let fields = self.encoding_without_id();
        let id_len = 1 + self.id.len() as int;
        let bytes = self.encoding().take(kept);
        assert(self.id.take(self.id.len() as int) =~= self.id);
        if kept < id_len {
            assert(bytes =~= (seq![self.id.len() as u8] + self.id).take(kept));
            counted_bytes_truncated(self.id, kept);
        } else {
            let tail = fields.take(kept - id_len);
            assert(bytes =~= seq![self.id.len() as u8] + self.id + tail);
            counted_bytes_round_trip(self.id, tail);
            assert(bytes.skip(id_len) =~= tail);
            self.truncated_without_id(kept - id_len);
        }
    }

    /// Every proper prefix of the fields of a report that fits ends before
    /// the fields do.
    #[verifier::rlimit(60)]
    #[verifier::spinoff_prover]
    pub proof fn truncated_without_id(self, kept: int)
        requires
            self.fits(),
            0 <= kept < self.encoding_without_id().len(),
        ensures
            ReportView::decode_without_id(self.id, self.encoding_without_id().take(kept)) == Err::<
                (ReportView, nat),
                Error,
            >(Error::UnexpectedEOF),
    {
        let header = feature_byte(
            self.type_hint is Some,
            self.description is Some,
            self.read,
            self.write,
        );
        let hint = optional_type_encoding(self.type_hint);
        let text = optional_text_encoding(self.description);
        let complexity = self.complexity.encoding();
        let bytes = self.encoding_without_id().take(kept);
        if kept > 0 {
            let after_hint = 1 + hint.len() as int;
            let after_text = after_hint + text.len() as int;
            assert(bytes[0] == header);
            feature_byte_round_trip(
                self.type_hint is Some,
                self.description is Some,
                self.read,
                self.write,
            );
            if kept < after_hint {
                assert(bytes.skip(1) =~= hint.take(kept - 1));
                optional_type_truncated(self.type_hint, kept - 1);
            } else {
                assert(decode_optional_type(header & 0x80 != 0, bytes.skip(1)) == Ok::<
                    (Option<Type>, nat),
                    Error,
                >((self.type_hint, hint.len()))) by {
                    let rest = (text + complexity).take(kept - after_hint);
                    assert(bytes.skip(1) =~= hint + rest);
                    optional_type_round_trip(self.type_hint, rest);
                }
                if kept < after_text {
                    assert(bytes.skip(after_hint) =~= text.take(kept - after_hint));
                    optional_text_truncated(self.description, kept - after_hint);
                } else {
                    assert(decode_optional_text(header & 0x40 != 0, bytes.skip(after_hint))
                        == Ok::<(Option<Seq<char>>, nat), Error>(
                        (self.description, text.len()),
                    )) by {
                        let rest = complexity.take(kept - after_text);
                        assert(bytes.skip(after_hint) =~= text + rest);
                        optional_text_round_trip(self.description, rest);
                    }
                    assert(bytes.skip(after_text) =~= complexity.take(kept - after_text));
                    self.complexity.truncated_is_incomplete(kept - after_text);
                }
            }
        }
    }
}

/// The lower-case hexadecimal digit of a number below 16.
pub open spec fn hex_digit(nibble: u8) -> char {
    match nibble {
        0 => '0',
        1 => '1',
        2 => '2',
        3 => '3',
        4 => '4',
        5 => '5',
        6 => '6',
        7 => '7',
        8 => '8',
        9 => '9',
        10 => 'a',
        11 => 'b',
        12 => 'c',
        13 => 'd',
        14 => 'e',
        _ => 'f',
    }
}

/// A path as text: each byte as two lower-case hexadecimal digits, with
/// a colon between one byte and the next.
pub open spec fn formatted_path(path: Seq<u8>) -> Seq<char>
    decreases path.len(),
{
    if path.len() == 0 {
        Seq::<char>::empty()
    } else if path.len() == 1 {
        seq![hex_digit(path[0] / 16), hex_digit(path[0] % 16)]
    } else {
        formatted_path(path.drop_last()) + seq![
            ':',
            hex_digit(path.last() / 16),
            hex_digit(path.last() % 16),
        ]
    }
}

/// The lower-case hexadecimal digit of a number below 16, as text.
fn hex_digit_text(nibble: u8) -> (text: &'static str)
    requires
        nibble < 16,
    ensures
        text@ == seq![hex_digit(nibble)],
{
    match nibble {
        0 => {
            proof {
                reveal_strlit("0");
            }
            "0"
        },
        1 => {
            proof {
                reveal_strlit("1");
            }
            "1"
        },
        2 => {
            proof {
                reveal_strlit("2");
            }
            "2"
        },
        3 => {
            proof {
                reveal_strlit("3");
            }
            "3"
        },
        4 => {
            proof {
                reveal_strlit("4");
            }
            "4"
        },
        5 => {
            proof {
                reveal_strlit("5");
            }
            "5"
        },
        6 => {
            proof {
                reveal_strlit("6");
            }
            "6"
        },
        7 => {
            proof {
                reveal_strlit("7");
            }
            "7"
        },
        8 => {
            proof {
                reveal_strlit("8");
            }
            "8"
        },
        9 => {
            proof {
                reveal_strlit("9");
            }
            "9"
        },
        10 => {
            proof {
                reveal_strlit("a");
            }
            "a"
        },
        11 => {
            proof {
                reveal_strlit("b");
            }
            "b"
        },
        12 => {
            proof {
                reveal_strlit("c");
            }
            "c"
        },
        13 => {
            proof {
                reveal_strlit("d");
            }
            "d"
        },
        14 => {
            proof {
                reveal_strlit("e");
            }
            "e"
        },
        _ => {
            proof {
                reveal_strlit("f");
            }
            "f"
        },
    }
}

impl PropertyReportV1 {
    /// The id as text: each byte as two lower-case hexadecimal digits,
    /// with a colon between one byte and the next.
    pub fn id_formatted(&self) -> (text: String)
        ensures
            text@ == formatted_path(self.id@),
    {
        let mut text = String::new();
        let mut i: usize = 0;
        assert(self.id@.take(0) =~= Seq::<u8>::empty());
        while i < self.id.len()
            invariant
                i <= self.id.len(),
                text@ == formatted_path(self.id@.take(i as int)),
            decreases self.id.len() - i,
        {
            let byte = self.id[i];
            let ghost before = text@;
            if i > 0 {
                proof {
                    reveal_strlit(":");
                }
                text.append(":");
            }
            text.append(hex_digit_text(byte / 16));
            text.append(hex_digit_text(byte % 16));
            proof {
                let taken = self.id@.take(i + 1);
                assert(taken.drop_last() =~= self.id@.take(i as int));
                assert(taken.last() == byte);
                if i > 0 {
                    assert(text@ =~= before + seq![
                        ':',
                        hex_digit(byte / 16),
                        hex_digit(byte % 16),
                    ]);
                } else {
                    assert(text@ =~= seq![hex_digit(byte / 16), hex_digit(byte % 16)]);
                }
            }
            i += 1;
        }
        assert(self.id@.take(i as int) =~= self.id@);
        text
    }
}

} // verus!
