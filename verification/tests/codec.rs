use sensor_common::{Bus, Error, Format, Read, Request, Response, SliceWriter, Type, Write};

fn encoded_request(request: Request) -> Vec<u8> {
    let mut out = Vec::new();
    let written = request.write(&mut out).unwrap();
    assert_eq!(written, out.len());
    out
}

fn encoded_response(response: Response) -> Vec<u8> {
    let mut out = Vec::new();
    let written = response.write(&mut out).unwrap();
    assert_eq!(written, out.len());
    out
}

fn all_types() -> Vec<(Type, Vec<u8>)> {
    vec![
        (Type::F32, vec![0x00]),
        (Type::Bytes(8), vec![0x01, 8]),
        (Type::String(255), vec![0x02, 255]),
        (Type::PropertyId, vec![0x03]),
        (Type::DynString, vec![0x04]),
        (Type::DynBytes, vec![0x05]),
        (Type::DynListPropertyReportV1, vec![0xC0]),
        (Type::U128, vec![0xF6]),
        (Type::I128, vec![0xF7]),
        (Type::U64, vec![0xF8]),
        (Type::I64, vec![0xF9]),
        (Type::U32, vec![0xFA]),
        (Type::I32, vec![0xFB]),
        (Type::U16, vec![0xFC]),
        (Type::I16, vec![0xFD]),
        (Type::U8, vec![0xFE]),
        (Type::I8, vec![0xFF]),
    ]
}

fn all_requests() -> Vec<(Request, Vec<u8>)> {
    vec![
        (Request::ReadSpecified(1, Bus::OneWire), vec![0x00, 1, 0x00]),
        (Request::ReadAll(2), vec![0x01, 2]),
        (Request::ReadAllOnBus(3, Bus::I2C), vec![0x02, 3, 0x01]),
        (Request::DiscoverAll(4), vec![0x10, 4]),
        (Request::DiscoverAllOnBus(5, Bus::Custom(9)), vec![0x11, 5, 0xFF, 9]),
        (
            Request::SetNetworkMac(6, [1, 2, 3, 4, 5, 6]),
            vec![0xA0, 6, 1, 2, 3, 4, 5, 6],
        ),
        (
            Request::SetNetworkIpSubnetGateway(7, [10, 0, 0, 2], [255, 255, 255, 0], [10, 0, 0, 1]),
            vec![0xA1, 7, 10, 0, 0, 2, 255, 255, 255, 0, 10, 0, 0, 1],
        ),
        (Request::ListComponents(8), vec![0xD0, 8]),
        (Request::ListComponentsWithReportV1(9), vec![0xD1, 9]),
        (Request::RetrieveProperty(10, 3), vec![0xFB, 10, 3]),
        (Request::RetrieveErrorDump(11), vec![0xFC, 11]),
        (Request::RetrieveDeviceInformation(12), vec![0xFD, 12]),
        (Request::RetrieveNetworkConfiguration(13), vec![0xFE, 13]),
        (Request::RetrieveVersionInformation(14), vec![0xFF, 14]),
    ]
}

#[test]
fn read_all_request_encodes_to_two_bytes() {
    let out = encoded_request(Request::ReadAll(0x42));
    assert_eq!(out, vec![0x01, 0x42]);
    let mut reader = &out[..];
    assert_eq!(Request::read(&mut reader), Ok(Request::ReadAll(0x42)));
    assert_eq!(reader.available(), 0);
}

#[test]
fn request_id_is_the_second_field() {
    for (request, bytes) in all_requests() {
        assert_eq!(request.id(), bytes[1]);
    }
}

#[test]
fn every_request_has_its_layout() {
    for (request, bytes) in all_requests() {
        assert_eq!(encoded_request(request), bytes);
    }
}

#[test]
fn every_request_round_trips_and_leaves_what_follows() {
    for (request, bytes) in all_requests() {
        let mut input = bytes.clone();
        input.extend_from_slice(&[0xAB, 0xCD]);
        let mut reader = &input[..];
        assert_eq!(Request::read(&mut reader), Ok(request));
        assert_eq!(reader, &[0xAB, 0xCD][..]);
    }
}

#[test]
fn every_truncated_request_is_incomplete() {
    for (_, bytes) in all_requests() {
        for kept in 0..bytes.len() {
            let mut reader = &bytes[..kept];
            assert_eq!(Request::read(&mut reader), Err(Error::UnexpectedEOF));
        }
    }
}

#[test]
fn unassigned_request_opcodes_are_refused() {
    for opcode in 0..=255u8 {
        let assigned = matches!(opcode, 0x00..=0x02 | 0x10 | 0x11 | 0xA0 | 0xA1 | 0xD0 | 0xD1 | 0xFB..=0xFF);
        let input = [opcode, 1, 0, 0, 0, 0, 0, 0, 0, 0, 0, 0, 0, 0];
        let mut reader = &input[..];
        let result = Request::read(&mut reader);
        if assigned {
            assert!(result.is_ok());
        } else {
            assert_eq!(result, Err(Error::UnknownTypeIdentifier));
        }
    }
}

#[test]
fn every_type_has_its_layout_and_round_trips() {
    for (ty, bytes) in all_types() {
        let mut out = Vec::new();
        assert_eq!(ty.write(&mut out), Ok(bytes.len()));
        assert_eq!(out, bytes);
        let mut reader = &out[..];
        assert_eq!(Type::read(&mut reader), Ok(ty));
        assert_eq!(reader.available(), 0);
    }
}

#[test]
fn unassigned_type_tags_are_refused() {
    for tag in 0..=255u8 {
        let assigned = matches!(tag, 0x00..=0x05 | 0xC0 | 0xF6..=0xFF);
        let input = [tag, 7];
        let mut reader = &input[..];
        let result = Type::read(&mut reader);
        assert_eq!(result.is_ok(), assigned);
        if !assigned {
            assert_eq!(result, Err(Error::UnknownTypeIdentifier));
        }
    }
}

#[test]
fn sized_type_without_its_width_is_incomplete() {
    let mut reader = &[0x01u8][..];
    assert_eq!(Type::read(&mut reader), Err(Error::UnexpectedEOF));
    let mut reader = &[][..];
    assert_eq!(Type::read(&mut reader), Err(Error::UnexpectedEOF));
}

#[test]
fn bus_layouts_and_round_trip() {
    for (bus, bytes) in [
        (Bus::OneWire, vec![0x00]),
        (Bus::I2C, vec![0x01]),
        (Bus::Custom(0x33), vec![0xFF, 0x33]),
    ] {
        let mut out = Vec::new();
        assert_eq!(bus.write(&mut out), Ok(bytes.len()));
        assert_eq!(out, bytes);
        let mut reader = &out[..];
        assert_eq!(Bus::read(&mut reader), Ok(bus));
    }
}

#[test]
fn unassigned_bus_tags_are_refused() {
    for tag in 2..=254u8 {
        let input = [tag, 0];
        let mut reader = &input[..];
        assert_eq!(Bus::read(&mut reader), Err(Error::UnknownTypeIdentifier));
    }
    let mut reader = &[0xFFu8][..];
    assert_eq!(Bus::read(&mut reader), Err(Error::UnexpectedEOF));
}

#[test]
fn format_layouts_and_round_trip() {
    for (format, bytes) in [
        (Format::ValueOnly(Type::F32), vec![0x00, 0x00]),
        (Format::AddressOnly(Type::PropertyId), vec![0x01, 0x03]),
        (
            Format::AddressValuePairs(Type::Bytes(8), Type::F32),
            vec![0x02, 0x01, 8, 0x00],
        ),
        (Format::Empty, vec![0xFF]),
    ] {
        let mut out = Vec::new();
        assert_eq!(format.write(&mut out), Ok(bytes.len()));
        assert_eq!(out, bytes);
        let mut reader = &out[..];
        assert_eq!(Format::read(&mut reader), Ok(format));
        assert_eq!(reader.available(), 0);
    }
}

#[test]
fn unassigned_format_tags_and_nested_tags_are_refused() {
    for tag in 3..=254u8 {
        let input = [tag, 0, 0];
        let mut reader = &input[..];
        assert_eq!(Format::read(&mut reader), Err(Error::UnknownTypeIdentifier));
    }
    let mut reader = &[0x00u8, 0x77][..];
    assert_eq!(Format::read(&mut reader), Err(Error::UnknownTypeIdentifier));
    let mut reader = &[0x02u8, 0x00, 0x77][..];
    assert_eq!(Format::read(&mut reader), Err(Error::UnknownTypeIdentifier));
    let mut reader = &[0x02u8, 0x00][..];
    assert_eq!(Format::read(&mut reader), Err(Error::UnexpectedEOF));
}

#[test]
fn ok_response_with_values_encodes_to_four_bytes() {
    let response = Response::Okay(0x07, Format::ValueOnly(Type::F32));
    assert_eq!(encoded_response(response), vec![0x00, 0x07, 0x00, 0x00]);
    assert_eq!(response.id(), 0x07);
}

#[test]
fn not_available_encodes_to_two_bytes() {
    assert_eq!(encoded_response(Response::NotAvailable(0x09)), vec![0xF1, 0x09]);
    assert_eq!(encoded_response(Response::NotImplemented(0x0A)), vec![0xF0, 0x0A]);
    assert_eq!(Response::NotAvailable(0x09).id(), 0x09);
    assert_eq!(Response::NotImplemented(0x0A).id(), 0x0A);
}

#[test]
fn response_round_trips_and_leaves_the_payload() {
    for response in [
        Response::NotImplemented(1),
        Response::NotAvailable(2),
        Response::Okay(3, Format::Empty),
        Response::Okay(4, Format::AddressValuePairs(Type::Bytes(8), Type::F32)),
    ] {
        let mut input = encoded_response(response);
        input.extend_from_slice(&[1, 2, 3]);
        let mut reader = &input[..];
        assert_eq!(Response::read(&mut reader), Ok(response));
        assert_eq!(reader, &[1, 2, 3][..]);
    }
}

#[test]
fn unassigned_response_opcodes_are_refused() {
    for opcode in 0..=255u8 {
        let assigned = matches!(opcode, 0x00 | 0xF0 | 0xF1);
        let input = [opcode, 1, 0xFF];
        let mut reader = &input[..];
        let result = Response::read(&mut reader);
        assert_eq!(result.is_ok(), assigned);
        if !assigned {
            assert_eq!(result, Err(Error::UnknownTypeIdentifier));
        }
    }
}

#[test]
fn writer_one_byte_short_is_too_small() {
    for (request, bytes) in all_requests() {
        let mut short = vec![0u8; bytes.len() - 1];
        let mut writer = SliceWriter::new(&mut short);
        assert_eq!(request.write(&mut writer), Err(Error::BufferToSmall));
    }
}

#[test]
fn writer_of_exact_size_is_filled() {
    for (request, bytes) in all_requests() {
        let mut exact = vec![0u8; bytes.len()];
        {
            let mut writer = SliceWriter::new(&mut exact);
            assert_eq!(request.write(&mut writer), Ok(bytes.len()));
            assert_eq!(writer.available(), 0);
            assert_eq!(writer.write_u8(0), Err(Error::BufferToSmall));
        }
        assert_eq!(exact, bytes);
    }
}

#[test]
fn slice_writer_advances_on_write() {
    let mut buffer = [0u8; 4];
    {
        let mut writer = SliceWriter::new(&mut buffer);
        assert_eq!(writer.available(), 4);
        assert_eq!(writer.write_u8(0xAA), Ok(1));
        assert_eq!(writer.available(), 3);
        assert_eq!(writer.write_all(&[1, 2, 3, 4]), Err(Error::BufferToSmall));
        assert_eq!(writer.available(), 3);
        assert_eq!(writer.write_all(&[1, 2, 3]), Ok(3));
        assert_eq!(writer.available(), 0);
    }
    assert_eq!(buffer, [0xAA, 1, 2, 3]);
}

#[test]
fn growable_writer_reports_unbounded_room() {
    let mut out: Vec<u8> = Vec::new();
    assert_eq!(Write::available(&out), usize::MAX);
    assert_eq!(out.write_u8(5), Ok(1));
    assert_eq!(Write::available(&out), usize::MAX - 1);
    assert_eq!(out.write_all(&[6, 7]), Ok(2));
    assert_eq!(out, vec![5, 6, 7]);
}

#[test]
fn slice_reader_advances_on_read() {
    let data = [1u8, 2, 3];
    let mut reader = &data[..];
    assert_eq!(reader.available(), 3);
    assert_eq!(reader.read_u8(), Ok(1));
    assert_eq!(reader.available(), 2);
    let mut two = [0u8; 2];
    assert_eq!(reader.read_all(&mut two), Ok(2));
    assert_eq!(two, [2, 3]);
    assert_eq!(reader.read_u8(), Err(Error::UnexpectedEOF));
}

#[test]
fn read_all_consumes_nothing_when_too_few_are_left() {
    let data = [1u8, 2, 3];
    let mut reader = &data[..];
    let mut four = [9u8; 4];
    assert_eq!(reader.read_all(&mut four), Err(Error::UnexpectedEOF));
    assert_eq!(four, [9, 9, 9, 9]);
    assert_eq!(reader.available(), 3);
}

#[test]
fn read_all_fills_no_more_than_255_places() {
    let data = vec![7u8; 300];
    let mut reader = &data[..];
    let mut destination = vec![0u8; 300];
    assert_eq!(reader.read_all(&mut destination), Ok(255));
    assert_eq!(reader.available(), 45);
    assert!(destination[..255].iter().all(|b| *b == 7));
    assert!(destination[255..].iter().all(|b| *b == 0));
}

#[test]
fn errors_have_their_names() {
    assert_eq!(Error::BufferToSmall.as_str(), "BufferToSmall");
    assert_eq!(Error::UnexpectedEOF.as_str(), "UnexpectedEOF");
    assert_eq!(Error::UnknownTypeIdentifier.as_str(), "UnknownTypeIdentifier");
}

#[test]
fn slice_writer_shows_what_was_written() {
    let mut buffer = [0u8; 8];
    let mut writer = SliceWriter::new(&mut buffer);
    assert!(writer.as_slice().is_empty());
    assert_eq!(Response::NotAvailable(0x09).write(&mut writer), Ok(2));
    assert_eq!(writer.as_slice(), &[0xF1, 0x09][..]);
    assert_eq!(writer.available(), 6);
}
