use sensor_common::props::{
    ComponentRoot, CpuComponent, DeviceComponent, EeePromComponent, MetaInformation,
    NetworkComponent, PlatformComponent, Property, PropertyId, PropertyReportV1, QueryComplexity,
    ReadFn, SntpComponent, TemperatureComponent, ValueBuffer, WriteFn,
};
use sensor_common::{Error, Read, SliceWriter, Type, Write};

fn report(
    id: &[u8],
    type_hint: Option<Type>,
    description: Option<&str>,
    complexity: QueryComplexity,
    read: bool,
    write: bool,
) -> PropertyReportV1 {
    PropertyReportV1 {
        id: id.to_vec(),
        type_hint,
        description: description.map(String::from),
        complexity,
        read,
        write,
    }
}

fn encoded(report: &PropertyReportV1) -> Vec<u8> {
    let mut out = Vec::new();
    let written = report.write(&mut out).unwrap();
    assert_eq!(written, out.len());
    out
}

fn assert_same(left: &PropertyReportV1, right: &PropertyReportV1) {
    assert_eq!(left.id, right.id);
    assert_eq!(left.type_hint, right.type_hint);
    assert_eq!(left.description, right.description);
    assert_eq!(left.complexity, right.complexity);
    assert_eq!(left.read, right.read);
    assert_eq!(left.write, right.write);
}

fn read_nothing(_: &mut (), _: &mut (), _: &mut ValueBuffer) -> Result<usize, Error> {
    Ok(0)
}

fn write_nothing(_: &mut (), _: &mut (), _: &mut &[u8]) -> Result<usize, Error> {
    Ok(0)
}

#[test]
fn low_complexity_with_estimate_encodes_big_endian() {
    let mut out = Vec::new();
    let low = QueryComplexity::Low { estimated_millis: Some(500) };
    assert_eq!(low.write(&mut out), Ok(3));
    assert_eq!(out, vec![0x10, 0x01, 0xF4]);
    let mut out = Vec::new();
    assert_eq!(QueryComplexity::Unknown.write(&mut out), Ok(1));
    assert_eq!(out, vec![0x00]);
}

#[test]
fn complexity_without_estimate_encodes_zero() {
    let mut out = Vec::new();
    assert_eq!(QueryComplexity::high().write(&mut out), Ok(3));
    assert_eq!(out, vec![0x20, 0x00, 0x00]);
    let mut out = Vec::new();
    assert_eq!(QueryComplexity::low().write(&mut out), Ok(3));
    assert_eq!(out, vec![0x10, 0x00, 0x00]);
    assert_eq!(QueryComplexity::high(), QueryComplexity::High { estimated_millis: None });
    assert_eq!(QueryComplexity::low(), QueryComplexity::Low { estimated_millis: None });
}

#[test]
fn complexity_round_trips() {
    for complexity in [
        QueryComplexity::Unknown,
        QueryComplexity::Low { estimated_millis: None },
        QueryComplexity::Low { estimated_millis: Some(1) },
        QueryComplexity::Low { estimated_millis: Some(500) },
        QueryComplexity::High { estimated_millis: None },
        QueryComplexity::High { estimated_millis: Some(256) },
        QueryComplexity::High { estimated_millis: Some(65535) },
    ] {
        let mut out = Vec::new();
        let written = complexity.write(&mut out).unwrap();
        assert_eq!(written, out.len());
        out.push(0x99);
        let mut reader = &out[..];
        assert_eq!(QueryComplexity::read(&mut reader), Ok(complexity));
        assert_eq!(reader, &[0x99][..]);
    }
}

#[test]
fn estimate_of_zero_reads_as_none() {
    let mut reader = &[0x10u8, 0, 0][..];
    assert_eq!(
        QueryComplexity::read(&mut reader),
        Ok(QueryComplexity::Low { estimated_millis: None })
    );
    let mut out = Vec::new();
    assert_eq!(QueryComplexity::High { estimated_millis: Some(0) }.write(&mut out), Ok(3));
    assert_eq!(out, vec![0x20, 0, 0]);
}

#[test]
fn complexity_tags_and_truncation() {
    for tag in 0..=255u8 {
        let input = [tag, 0, 1];
        let mut reader = &input[..];
        let result = QueryComplexity::read(&mut reader);
        if matches!(tag, 0x00 | 0x10 | 0x20) {
            assert!(result.is_ok());
        } else {
            assert_eq!(result, Err(Error::UnknownTypeIdentifier));
        }
    }
    let mut reader = &[0x10u8, 1][..];
    assert_eq!(QueryComplexity::read(&mut reader), Err(Error::UnexpectedEOF));
    let mut reader = &[][..];
    assert_eq!(QueryComplexity::read(&mut reader), Err(Error::UnexpectedEOF));
}

#[test]
fn complexity_in_a_short_writer() {
    let mut two = [0u8; 2];
    let mut writer = SliceWriter::new(&mut two);
    assert_eq!(QueryComplexity::high().write(&mut writer), Err(Error::BufferToSmall));
    let mut three = [0u8; 3];
    let mut writer = SliceWriter::new(&mut three);
    assert_eq!(QueryComplexity::high().write(&mut writer), Ok(3));
    assert_eq!(writer.available(), 0);
}

#[test]
fn property_id_is_prefixed_with_its_length() {
    let mut out = Vec::new();
    assert_eq!(PropertyId::from_slice(&[0x10, 0x00, 0x02]).write(&mut out), Ok(4));
    assert_eq!(out, vec![3, 0x10, 0x00, 0x02]);
    let mut out = Vec::new();
    assert_eq!(PropertyId::from_slice(&[]).write(&mut out), Ok(1));
    assert_eq!(out, vec![0]);
}

#[test]
fn property_id_is_clipped_to_255_bytes() {
    let long: Vec<u8> = (0..300).map(|i| (i % 251) as u8).collect();
    let mut out = Vec::new();
    assert_eq!(PropertyId::from_slice(&long).write(&mut out), Ok(256));
    assert_eq!(out[0], 255);
    assert_eq!(&out[1..], &long[..255]);
}

#[test]
fn report_with_type_hint_and_no_description() {
    let report = report(
        &[0x10, 0x00, 0x00],
        Some(Type::U32),
        None,
        QueryComplexity::High { estimated_millis: None },
        true,
        false,
    );
    assert_eq!(
        encoded(&report),
        vec![0x03, 0x10, 0x00, 0x00, 0b1010_0000, 0xFA, 0x20, 0x00, 0x00]
    );
}

#[test]
fn report_without_id_starts_with_the_feature_byte() {
    let report = report(
        &[0x10, 0x00, 0x00],
        None,
        Some("up"),
        QueryComplexity::Unknown,
        false,
        true,
    );
    let mut out = Vec::new();
    assert_eq!(report.write_no_id(&mut out), Ok(5));
    assert_eq!(out, vec![0b0101_0000, 2, b'u', b'p', 0x00]);
}

#[test]
fn every_combination_of_feature_bits_round_trips() {
    for bits in 0..16u8 {
        let given = report(
            &[0x20, bits],
            if bits & 8 != 0 { Some(Type::Bytes(bits)) } else { None },
            if bits & 4 != 0 { Some("Gerät läuft") } else { None },
            QueryComplexity::Low { estimated_millis: Some(1000 + bits as u16) },
            bits & 2 != 0,
            bits & 1 != 0,
        );
        let mut bytes = encoded(&given);
        assert_eq!(bytes[3], bits << 4);
        bytes.extend_from_slice(&[0xEE, 0xFF]);
        let mut reader = &bytes[..];
        let decoded = PropertyReportV1::read(&mut reader).unwrap();
        assert_same(&decoded, &given);
        assert_eq!(reader, &[0xEE, 0xFF][..]);
    }
}

#[test]
fn reserved_feature_bits_are_tolerated() {
    let mut reader = &[1u8, 0x30, 0b0010_1111, 0x00][..];
    let decoded = PropertyReportV1::read(&mut reader).unwrap();
    assert_same(
        &decoded,
        &report(&[0x30], None, None, QueryComplexity::Unknown, true, false),
    );
    assert_eq!(reader.available(), 0);
}

#[test]
fn description_with_invalid_utf8_gets_replacement_characters() {
    let mut reader = &[0u8, 0b0100_0000, 3, b'a', 0xFF, b'b', 0x00][..];
    let decoded = PropertyReportV1::read(&mut reader).unwrap();
    assert_eq!(decoded.description, Some(String::from("a\u{FFFD}b")));
    assert!(decoded.id.is_empty());
}

#[test]
fn long_description_is_clipped_to_255_bytes() {
    let text = "x".repeat(300);
    let given = report(&[1], None, Some(&text), QueryComplexity::Unknown, false, false);
    let bytes = encoded(&given);
    assert_eq!(bytes.len(), 2 + 1 + 1 + 255 + 1);
    assert_eq!(bytes[3], 255);
    let mut reader = &bytes[..];
    let decoded = PropertyReportV1::read(&mut reader).unwrap();
    assert_eq!(decoded.description, Some("x".repeat(255)));
}

#[test]
fn truncated_report_is_incomplete() {
    let given = report(
        &[0x10, 0x02],
        Some(Type::String(4)),
        Some("uptime"),
        QueryComplexity::Low { estimated_millis: Some(2) },
        true,
        true,
    );
    let bytes = encoded(&given);
    for kept in 0..bytes.len() {
        let mut reader = &bytes[..kept];
        assert_eq!(PropertyReportV1::read(&mut reader).err(), Some(Error::UnexpectedEOF));
    }
}

#[test]
fn report_with_unknown_nested_tag_is_refused() {
    let mut reader = &[0u8, 0b1000_0000, 0x77, 0x00][..];
    assert_eq!(
        PropertyReportV1::read(&mut reader).err(),
        Some(Error::UnknownTypeIdentifier)
    );
    let mut reader = &[0u8, 0b0000_0000, 0x77][..];
    assert_eq!(
        PropertyReportV1::read(&mut reader).err(),
        Some(Error::UnknownTypeIdentifier)
    );
}

#[test]
fn report_in_a_short_writer() {
    let given = report(&[1, 2], None, None, QueryComplexity::Unknown, true, true);
    let bytes = encoded(&given);
    let mut short = vec![0u8; bytes.len() - 1];
    let mut writer = SliceWriter::new(&mut short);
    assert_eq!(given.write(&mut writer), Err(Error::BufferToSmall));
    let mut exact = vec![0u8; bytes.len()];
    let mut writer = SliceWriter::new(&mut exact);
    assert_eq!(given.write(&mut writer), Ok(bytes.len()));
    assert_eq!(writer.available(), 0);
}

#[test]
fn id_is_formatted_as_hex_with_colons() {
    let given = report(&[0x10, 0x00, 0xAB, 0x0F], None, None, QueryComplexity::Unknown, false, false);
    assert_eq!(given.id_formatted(), "10:00:ab:0f");
    let single = report(&[0xFE], None, None, QueryComplexity::Unknown, false, false);
    assert_eq!(single.id_formatted(), "fe");
    let empty = report(&[], None, None, QueryComplexity::Unknown, false, false);
    assert_eq!(empty.id_formatted(), "");
}

#[test]
fn report_of_a_property_says_what_the_property_has() {
    let readable: Property<ReadFn<(), ()>, WriteFn<(), ()>> = Property {
        id: &[0x10, 0x02],
        type_hint: Some(Type::U64),
        description: Some("uptime"),
        complexity: QueryComplexity::low(),
        read: Some(read_nothing),
        write: None,
    };
    assert_same(
        &PropertyReportV1::from_property(&readable),
        &report(&[0x10, 0x02], Some(Type::U64), Some("uptime"), QueryComplexity::low(), true, false),
    );
    let writable: Property<ReadFn<(), ()>, WriteFn<(), ()>> = Property {
        id: &[0x30],
        type_hint: None,
        description: None,
        complexity: QueryComplexity::Unknown,
        read: None,
        write: Some(write_nothing),
    };
    assert_same(
        &PropertyReportV1::from_property(&writable),
        &report(&[0x30], None, None, QueryComplexity::Unknown, false, true),
    );
}

#[test]
fn component_codes() {
    assert_eq!(ComponentRoot::Device.code(), 0x10);
    assert_eq!(ComponentRoot::System.code(), 0x20);
    assert_eq!(ComponentRoot::Platform.code(), 0x30);
    assert_eq!(ComponentRoot::Module.code(), 0x40);
    assert_eq!(DeviceComponent::Cpu.code(), 0x00);
    assert_eq!(DeviceComponent::Frequency.code(), 0x01);
    assert_eq!(DeviceComponent::Uptime.code(), 0x02);
    assert_eq!(CpuComponent::Revision.code(), 0x04);
    assert_eq!(PlatformComponent::Meta.code(), 0x00);
    assert_eq!(PlatformComponent::EeeProm.code(), 0x10);
    assert_eq!(PlatformComponent::Network.code(), 0x11);
    assert_eq!(PlatformComponent::Temperature.code(), 0x12);
    assert_eq!(PlatformComponent::Sntp.code(), 0x13);
    assert_eq!(MetaInformation::Version.code(), 0x00);
    assert_eq!(EeePromComponent::MagicCrcStart.code(), 0x10);
    assert_eq!(NetworkComponent::Mac.code(), 0x10);
    assert_eq!(NetworkComponent::Ip.code(), 0x11);
    assert_eq!(NetworkComponent::Subnet.code(), 0x12);
    assert_eq!(NetworkComponent::Gateway.code(), 0x13);
    assert_eq!(TemperatureComponent::Value.code(), 0x00);
    assert_eq!(SntpComponent::CurrentTimeMillis.code(), 0x00);
    assert_eq!(SntpComponent::LastOffsetMillis.code(), 0x01);
    assert_eq!(SntpComponent::LastUpdateMillis.code(), 0x02);
}

#[test]
fn components_from_their_codes() {
    for number in 0..=255u8 {
        match ComponentRoot::try_from_primitive(number) {
            Ok(root) => assert_eq!(root.code(), number),
            Err(refused) => {
                assert_eq!(refused, number);
                assert!(!matches!(number, 0x10 | 0x20 | 0x30 | 0x40));
            }
        }
        match DeviceComponent::try_from_primitive(number) {
            Ok(component) => assert_eq!(component.code(), number),
            Err(refused) => {
                assert_eq!(refused, number);
                assert!(number > 2);
            }
        }
        match CpuComponent::try_from_primitive(number) {
            Ok(component) => assert_eq!(component.code(), number),
            Err(refused) => {
                assert_eq!(refused, number);
                assert!(number > 4);
            }
        }
    }
    assert_eq!(ComponentRoot::try_from_primitive(0x40), Ok(ComponentRoot::Module));
    assert_eq!(CpuComponent::try_from_primitive(0x03), Ok(CpuComponent::PartNumber));
}

#[test]
fn cpu_component_path() {
    assert_eq!(CpuComponent::Id.to_cid_path(), [0x10, 0x00, 0x00]);
    assert_eq!(CpuComponent::Implementer.to_cid_path(), [0x10, 0x00, 0x01]);
    assert_eq!(CpuComponent::Variant.to_cid_path(), [0x10, 0x00, 0x02]);
    assert_eq!(CpuComponent::PartNumber.to_cid_path(), [0x10, 0x00, 0x03]);
    assert_eq!(CpuComponent::Revision.to_cid_path(), [0x10, 0x00, 0x04]);
}

#[test]
fn value_buffer_takes_no_more_than_its_room() {
    let mut buffer = ValueBuffer::with_room(2);
    assert_eq!(buffer.available(), 2);
    assert_eq!(buffer.write_all(&[1, 2, 3]), Err(Error::BufferToSmall));
    assert_eq!(buffer.write_u8(1), Ok(1));
    assert_eq!(buffer.write_u8(2), Ok(1));
    assert_eq!(buffer.write_u8(3), Err(Error::BufferToSmall));
    assert_eq!(buffer.available(), 0);
    assert_eq!(buffer.as_slice(), &[1, 2][..]);
}

#[test]
fn property_id_from_a_slice() {
    let path: &[u8] = &[0x20, 0x01];
    let mut out = Vec::new();
    assert_eq!(PropertyId::from(path).write(&mut out), Ok(3));
    assert_eq!(out, vec![2, 0x20, 0x01]);
}
