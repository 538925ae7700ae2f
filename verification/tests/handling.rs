use sensor_common::props::handling::{ListComponentsResponder, RetrievePropertyResponder};
use sensor_common::props::{ModuleId, Property, QueryComplexity, ReadFn, ValueBuffer, WriteFn};
use sensor_common::{Error, Read, Request, SliceWriter, Type, Write};

struct Platform {
    uptime: u32,
    reads: u32,
}

struct Target {
    touched: u32,
}

struct Module {
    level: u8,
    reads: u32,
}

type Base = Property<ReadFn<Platform, Target>, WriteFn<Platform, Target>>;
type Plugged = Property<ReadFn<Platform, Module>, WriteFn<Platform, Module>>;

fn read_uptime(p: &mut Platform, t: &mut Target, w: &mut ValueBuffer) -> Result<usize, Error> {
    p.reads += 1;
    t.touched += 1;
    w.write_all(&p.uptime.to_be_bytes())
}

fn read_name(p: &mut Platform, _: &mut Target, w: &mut ValueBuffer) -> Result<usize, Error> {
    p.reads += 1;
    w.write_all(b"hub")
}

fn read_failing(p: &mut Platform, _: &mut Target, w: &mut ValueBuffer) -> Result<usize, Error> {
    p.reads += 1;
    w.write_u8(1)?;
    Err(Error::UnexpectedEOF)
}

fn write_ignored(_: &mut Platform, _: &mut Target, _: &mut &[u8]) -> Result<usize, Error> {
    Ok(0)
}

fn read_level(p: &mut Platform, m: &mut Module, w: &mut ValueBuffer) -> Result<usize, Error> {
    p.reads += 1;
    m.reads += 1;
    w.write_u8(m.level)
}

fn base_table() -> Vec<Base> {
    vec![
        Property {
            id: &[0x10, 0x02],
            type_hint: Some(Type::U32),
            description: Some("uptime"),
            complexity: QueryComplexity::Low { estimated_millis: Some(5) },
            read: Some(read_uptime),
            write: None,
        },
        Property {
            id: &[0x10, 0x02, 0x01],
            type_hint: None,
            description: None,
            complexity: QueryComplexity::Unknown,
            read: Some(read_name),
            write: Some(write_ignored),
        },
        Property {
            id: &[0x30, 0x11],
            type_hint: Some(Type::Bytes(6)),
            description: None,
            complexity: QueryComplexity::high(),
            read: None,
            write: Some(write_ignored),
        },
        Property {
            id: &[0x20],
            type_hint: None,
            description: None,
            complexity: QueryComplexity::Unknown,
            read: Some(read_failing),
            write: None,
        },
    ]
}

fn module_table() -> Vec<Plugged> {
    vec![
        Property {
            id: &[0x07],
            type_hint: Some(Type::U8),
            description: Some("lvl"),
            complexity: QueryComplexity::Unknown,
            read: Some(read_level),
            write: None,
        },
        Property {
            id: &[0x10, 0x02],
            type_hint: None,
            description: None,
            complexity: QueryComplexity::Unknown,
            read: None,
            write: None,
        },
    ]
}

fn module_id() -> ModuleId {
    ModuleId { group: 0xA1, id: 0xB2, ext: 0xC3 }
}

struct Outcome {
    result: Result<usize, Error>,
    written: Vec<u8>,
    left: usize,
    platform_reads: u32,
    target_touched: u32,
    module_reads: u32,
}

fn retrieve(path: &[u8], declared: u8, with_module: bool, room: usize) -> Outcome {
    let base = base_table();
    let module = module_table();
    let mut platform = Platform { uptime: 0x0102_0304, reads: 0 };
    let mut target = Target { touched: 0 };
    let mut plugged = Module { level: 0x5A, reads: 0 };
    let mut input = path;
    let mut buffer = vec![0u8; room];
    let (result, used) = {
        let mut writer = SliceWriter::new(&mut buffer);
        let responder =
            RetrievePropertyResponder::opt_from(&Request::RetrieveProperty(0x21, declared), &mut input)
                .unwrap();
        let result = responder.write(
            &mut writer,
            &base,
            if with_module { Some((module_id(), &module[..])) } else { None },
            &mut platform,
            &mut target,
            &mut plugged,
        );
        (result, room - writer.available())
    };
    buffer.truncate(used);
    Outcome {
        result,
        written: buffer,
        left: input.len(),
        platform_reads: platform.reads,
        target_touched: target.touched,
        module_reads: plugged.reads,
    }
}

#[test]
fn retrieve_present_property_writes_header_then_value() {
    let outcome = retrieve(&[0x10, 0x02], 2, true, 64);
    assert_eq!(outcome.result, Ok(8));
    assert_eq!(outcome.written, vec![0x00, 0x21, 0x00, 0xFA, 1, 2, 3, 4]);
    assert_eq!(outcome.platform_reads, 1);
    assert_eq!(outcome.target_touched, 1);
    assert_eq!(outcome.module_reads, 0);
    assert_eq!(outcome.left, 0);
}

#[test]
fn retrieve_without_type_hint_announces_dyn_bytes() {
    let outcome = retrieve(&[0x10, 0x02, 0x01], 3, false, 64);
    assert_eq!(outcome.result, Ok(7));
    assert_eq!(outcome.written, vec![0x00, 0x21, 0x00, 0x05, b'h', b'u', b'b']);
    assert_eq!(outcome.platform_reads, 1);
}

#[test]
fn retrieve_absent_property_writes_not_available_only() {
    let outcome = retrieve(&[0x10, 0x03], 2, true, 64);
    assert_eq!(outcome.result, Ok(2));
    assert_eq!(outcome.written, vec![0xF1, 0x21]);
    assert_eq!(outcome.platform_reads, 0);
    assert_eq!(outcome.target_touched, 0);
    assert_eq!(outcome.module_reads, 0);
}

#[test]
fn retrieve_matches_whole_ids_only() {
    let shorter = retrieve(&[0x10], 1, false, 64);
    assert_eq!(shorter.written, vec![0xF1, 0x21]);
    let longer = retrieve(&[0x10, 0x02, 0x01, 0x00], 4, false, 64);
    assert_eq!(longer.written, vec![0xF1, 0x21]);
    assert_eq!(longer.platform_reads, 0);
}

#[test]
fn retrieve_property_without_reader_is_not_available() {
    let outcome = retrieve(&[0x30, 0x11], 2, false, 64);
    assert_eq!(outcome.result, Ok(2));
    assert_eq!(outcome.written, vec![0xF1, 0x21]);
    assert_eq!(outcome.platform_reads, 0);
}

#[test]
fn retrieve_module_property_by_its_local_id() {
    let outcome = retrieve(&[0x40, 0xA1, 0xB2, 0xC3, 0x07], 5, true, 64);
    assert_eq!(outcome.result, Ok(5));
    assert_eq!(outcome.written, vec![0x00, 0x21, 0x00, 0xFE, 0x5A]);
    assert_eq!(outcome.platform_reads, 1);
    assert_eq!(outcome.module_reads, 1);
    assert_eq!(outcome.target_touched, 0);
}

#[test]
fn retrieve_below_the_module_never_falls_back_to_the_base_table() {
    let unreadable = retrieve(&[0x40, 0xA1, 0xB2, 0xC3, 0x10, 0x02], 6, true, 64);
    assert_eq!(unreadable.written, vec![0xF1, 0x21]);
    assert_eq!(unreadable.platform_reads, 0);
    let unknown = retrieve(&[0x40, 0xA1, 0xB2, 0xC3, 0x08], 5, true, 64);
    assert_eq!(unknown.written, vec![0xF1, 0x21]);
}

#[test]
fn retrieve_below_another_module_is_looked_up_in_the_base_table() {
    let other = retrieve(&[0x40, 0xA1, 0xB2, 0xC4, 0x07], 5, true, 64);
    assert_eq!(other.written, vec![0xF1, 0x21]);
    assert_eq!(other.module_reads, 0);
    let unregistered = retrieve(&[0x40, 0xA1, 0xB2, 0xC3, 0x07], 5, false, 64);
    assert_eq!(unregistered.written, vec![0xF1, 0x21]);
}

#[test]
fn retrieve_reads_at_most_eight_path_bytes() {
    let path = [0x10, 0x02, 3, 4, 5, 6, 7, 8, 9, 10];
    let outcome = retrieve(&path, 10, false, 64);
    assert_eq!(outcome.result, Ok(2));
    assert_eq!(outcome.written, vec![0xF1, 0x21]);
    assert_eq!(outcome.left, 2);
}

#[test]
fn retrieve_reads_only_the_declared_length() {
    let outcome = retrieve(&[0x10, 0x02, 0x01], 2, false, 64);
    assert_eq!(outcome.written, vec![0x00, 0x21, 0x00, 0xFA, 1, 2, 3, 4]);
    assert_eq!(outcome.left, 1);
}

#[test]
fn retrieve_with_too_short_a_path_is_incomplete() {
    let outcome = retrieve(&[0x10], 2, false, 64);
    assert_eq!(outcome.result, Err(Error::UnexpectedEOF));
    assert!(outcome.written.is_empty());
    assert_eq!(outcome.platform_reads, 0);
}

#[test]
fn retrieve_without_room_for_the_answer() {
    let no_header = retrieve(&[0x10, 0x02], 2, false, 3);
    assert_eq!(no_header.result, Err(Error::BufferToSmall));
    assert_eq!(no_header.platform_reads, 0);
    let no_value = retrieve(&[0x10, 0x02], 2, false, 7);
    assert_eq!(no_value.result, Err(Error::BufferToSmall));
    assert_eq!(no_value.platform_reads, 1);
    let exact = retrieve(&[0x10, 0x02], 2, false, 8);
    assert_eq!(exact.result, Ok(8));
    let not_available = retrieve(&[0x11], 1, false, 1);
    assert_eq!(not_available.result, Err(Error::BufferToSmall));
    let fits = retrieve(&[0x11], 1, false, 2);
    assert_eq!(fits.result, Ok(2));
}

#[test]
fn retrieve_passes_on_the_error_of_the_reader() {
    let outcome = retrieve(&[0x20], 1, false, 64);
    assert_eq!(outcome.result, Err(Error::UnexpectedEOF));
    assert_eq!(outcome.platform_reads, 1);
}

#[test]
fn retrieve_responder_only_for_retrieve_requests() {
    let mut input = &[0u8][..];
    assert!(RetrievePropertyResponder::opt_from(&Request::ListComponents(1), &mut input).is_none());
    assert!(RetrievePropertyResponder::opt_from(&Request::ReadAll(1), &mut input).is_none());
    let responder =
        RetrievePropertyResponder::opt_from(&Request::RetrieveProperty(9, 4), &mut input).unwrap();
    assert_eq!(responder.request_id, 9);
    assert_eq!(responder.prop_id_len, 4);
}

#[test]
fn list_responder_only_for_list_requests() {
    assert_eq!(
        ListComponentsResponder::opt_from(&Request::ListComponents(3)),
        Some(ListComponentsResponder { request_id: 3, dyn_list_report_v1: false })
    );
    assert_eq!(
        ListComponentsResponder::opt_from(&Request::ListComponentsWithReportV1(4)),
        Some(ListComponentsResponder { request_id: 4, dyn_list_report_v1: true })
    );
    assert_eq!(ListComponentsResponder::opt_from(&Request::RetrieveProperty(3, 1)), None);
    assert_eq!(ListComponentsResponder::opt_from(&Request::DiscoverAll(3)), None);
}

fn listing(with_reports: bool, with_module: bool) -> Vec<u8> {
    let base = base_table();
    let module = module_table();
    let responder = ListComponentsResponder { request_id: 0x33, dyn_list_report_v1: with_reports };
    let mut out = Vec::new();
    let written = responder
        .write(
            &mut out,
            &base,
            if with_module { Some((module_id(), &module[..])) } else { None },
        )
        .unwrap();
    assert_eq!(written, out.len());
    out
}

#[test]
fn list_ids_of_base_and_module_properties() {
    let expected: Vec<u8> = [
        &[0x00, 0x33, 0x01, 0x03][..],
        &[2, 0x10, 0x02],
        &[3, 0x10, 0x02, 0x01],
        &[2, 0x30, 0x11],
        &[1, 0x20],
        &[5, 0x40, 0xA1, 0xB2, 0xC3, 0x07],
        &[6, 0x40, 0xA1, 0xB2, 0xC3, 0x10, 0x02],
    ]
    .concat();
    assert_eq!(listing(false, true), expected);
}

#[test]
fn list_ids_without_a_module() {
    let expected: Vec<u8> = [
        &[0x00, 0x33, 0x01, 0x03][..],
        &[2, 0x10, 0x02],
        &[3, 0x10, 0x02, 0x01],
        &[2, 0x30, 0x11],
        &[1, 0x20],
    ]
    .concat();
    assert_eq!(listing(false, false), expected);
}

#[test]
fn list_reports_of_base_and_module_properties() {
    let expected: Vec<u8> = [
        &[0x00, 0x33, 0x00, 0xC0][..],
        &[2, 0x10, 0x02, 0b1110_0000, 0xFA, 6, b'u', b'p', b't', b'i', b'm', b'e', 0x10, 0, 5],
        &[3, 0x10, 0x02, 0x01, 0b0011_0000, 0x00],
        &[2, 0x30, 0x11, 0b1001_0000, 0x01, 6, 0x20, 0, 0],
        &[1, 0x20, 0b0010_0000, 0x00],
        &[5, 0x40, 0xA1, 0xB2, 0xC3, 0x07, 0b1110_0000, 0xFE, 3, b'l', b'v', b'l', 0x00],
        &[6, 0x40, 0xA1, 0xB2, 0xC3, 0x10, 0x02, 0b0000_0000, 0x00],
    ]
    .concat();
    assert_eq!(listing(true, true), expected);
}

#[test]
fn list_of_nothing_is_the_header() {
    let none: Vec<Base> = Vec::new();
    let no_module: Option<(ModuleId, &[Plugged])> = None;
    let mut out = Vec::new();
    let responder = ListComponentsResponder { request_id: 1, dyn_list_report_v1: true };
    assert_eq!(responder.write(&mut out, &none, no_module), Ok(4));
    assert_eq!(out, vec![0x00, 0x01, 0x00, 0xC0]);
}

#[test]
fn list_clips_long_module_ids() {
    static LONG: [u8; 300] = [0x55; 300];
    let module: Vec<Plugged> = vec![Property {
        id: &LONG,
        type_hint: None,
        description: None,
        complexity: QueryComplexity::Unknown,
        read: None,
        write: None,
    }];
    let none: Vec<Base> = Vec::new();
    let mut out = Vec::new();
    let responder = ListComponentsResponder { request_id: 1, dyn_list_report_v1: false };
    assert_eq!(responder.write(&mut out, &none, Some((module_id(), &module[..]))), Ok(4 + 256));
    assert_eq!(out[4], 255);
    assert_eq!(&out[5..9], &[0x40, 0xA1, 0xB2, 0xC3]);
    assert_eq!(out.len(), 4 + 1 + 4 + 251);
    assert!(out[9..].iter().all(|b| *b == 0x55));
}

#[test]
fn list_in_a_short_writer() {
    let full = listing(true, true);
    let base = base_table();
    let module = module_table();
    let responder = ListComponentsResponder { request_id: 0x33, dyn_list_report_v1: true };
    for room in [0, 3, 4, 10, full.len() - 1] {
        let mut buffer = vec![0u8; room];
        let mut writer = SliceWriter::new(&mut buffer);
        assert_eq!(
            responder.write(&mut writer, &base, Some((module_id(), &module[..]))),
            Err(Error::BufferToSmall)
        );
    }
    let mut buffer = vec![0u8; full.len()];
    {
        let mut writer = SliceWriter::new(&mut buffer);
        assert_eq!(
            responder.write(&mut writer, &base, Some((module_id(), &module[..]))),
            Ok(full.len())
        );
        assert_eq!(writer.available(), 0);
    }
    assert_eq!(buffer, full);
}

#[test]
fn request_payload_reader_is_left_behind_the_path() {
    let frame = [0xFBu8, 0x21, 2, 0x10, 0x02, 0xEE];
    let mut reader = &frame[..];
    let request = Request::read(&mut reader).unwrap();
    assert_eq!(request, Request::RetrieveProperty(0x21, 2));
    let base = base_table();
    let no_module: Option<(ModuleId, &[Plugged])> = None;
    let mut platform = Platform { uptime: 7, reads: 0 };
    let mut target = Target { touched: 0 };
    let mut plugged = Module { level: 0, reads: 0 };
    let mut out = Vec::new();
    let responder = RetrievePropertyResponder::opt_from(&request, &mut reader).unwrap();
    assert_eq!(
        responder.write(&mut out, &base, no_module, &mut platform, &mut target, &mut plugged),
        Ok(8)
    );
    assert_eq!(out, vec![0x00, 0x21, 0x00, 0xFA, 0, 0, 0, 7]);
    assert_eq!(reader.available(), 1);
    assert_eq!(reader.read_u8(), Ok(0xEE));
}
