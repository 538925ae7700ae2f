//! Answers to the requests that list a device's properties or retrieve one.

use crate::frame::{Format, Request, Response};
use crate::io::{appended, same_bytes, Error, Read, Write};
use crate::props::{
    write_report_fields, ComponentRoot, ModuleId, Property, PropertyId, ReportView, ValueBuffer,
};
use crate::types::Type;
use vstd::prelude::*;
use vstd::slice::slice_subrange;

verus! {

/// The reports on the entries of a property table, in the table's order.
pub open spec fn reports_of<RF, WF>(properties: Seq<Property<RF, WF>>) -> Seq<ReportView> {
    Seq::new(properties.len(), |i: int| properties[i].report())
}

/// How many bytes of a module-local path go into a listed id: the module
/// prefix takes four of the 255 that a length byte can count.
pub open spec fn clipped_local_len(len: nat) -> nat {
    if len > 251 {
        251
    } else {
        len
    }
}

/// The id under which a module's property is listed: the length, then the
/// `Module` root, the three bytes of the module, and the local path.
pub open spec fn module_id_encoding(module: ModuleId, local: Seq<u8>) -> Seq<u8> {
    seq![
        (4 + clipped_local_len(local.len())) as u8,
        ComponentRoot::Module.spec_code(),
        module.group,
        module.id,
        module.ext,
    ] + local.take(clipped_local_len(local.len()) as int)
}

/// What stands in a listing for one property of the base table.
pub open spec fn base_entry(with_reports: bool, report: ReportView) -> Seq<u8> {
    if with_reports {
        report.encoding()
    } else {
        PropertyId::encoding_of(report.id)
    }
}

/// What stands in a listing for one property of a module.
pub open spec fn module_entry(with_reports: bool, module: ModuleId, report: ReportView) -> Seq<
    u8,
> {
    if with_reports {
        module_id_encoding(module, report.id) + report.encoding_without_id()
    } else {
        module_id_encoding(module, report.id)
    }
}

/// The entries of the base table, one after the other.
pub open spec fn base_entries(with_reports: bool, reports: Seq<ReportView>) -> Seq<u8>
    decreases reports.len(),
{
    if reports.len() == 0 {
        Seq::<u8>::empty()
    } else {
        base_entries(with_reports, reports.drop_last()) + base_entry(
            with_reports,
            reports.last(),
        )
    }
}

/// The entries of a module's table, one after the other.
pub open spec fn module_entries(
    with_reports: bool,
    module: ModuleId,
    reports: Seq<ReportView>,
) -> Seq<u8>
    decreases reports.len(),
{
    if reports.len() == 0 {
        Seq::<u8>::empty()
    } else {
        module_entries(with_reports, module, reports.drop_last()) + module_entry(
            with_reports,
            module,
            reports.last(),
        )
    }
}

/// The entries of the module's table where a module is registered.
pub open spec fn registered_entries(
    with_reports: bool,
    module: Option<(ModuleId, Seq<ReportView>)>,
) -> Seq<u8> {
    match module {
        Some((id, reports)) => module_entries(with_reports, id, reports),
        None => Seq::<u8>::empty(),
    }
}

/// The entries of a longer table start with those of each shorter one.
pub proof fn base_entries_grow(with_reports: bool, reports: Seq<ReportView>, count: int)
    requires
        0 <= count <= reports.len(),
    ensures
        base_entries(with_reports, reports.take(count)).len() <= base_entries(
            with_reports,
            reports,
        ).len(),
    decreases reports.len() - count,
{
    if count < reports.len() {
        assert(reports.take(count + 1).drop_last() =~= reports.take(count));
        base_entries_grow(with_reports, reports, count + 1);
    } else {
        assert(reports.take(count) =~= reports);
    }
}

/// The entries of a longer module table start with those of each shorter
/// one.
pub proof fn module_entries_grow(
    with_reports: bool,
    module: ModuleId,
    reports: Seq<ReportView>,
    count: int,
)
    requires
        0 <= count <= reports.len(),
    ensures
        module_entries(with_reports, module, reports.take(count)).len() <= module_entries(
            with_reports,
            module,
            reports,
        ).len(),
    decreases reports.len() - count,
{
    if count < reports.len() {
        assert(reports.take(count + 1).drop_last() =~= reports.take(count));
        module_entries_grow(with_reports, module, reports, count + 1);
    } else {
        assert(reports.take(count) =~= reports);
    }
}

/// The module's id and the reports on its table where a module is
/// registered.
pub open spec fn registered_reports<RF, WF>(
    module: Option<(ModuleId, &[Property<RF, WF>])>,
) -> Option<(ModuleId, Seq<ReportView>)> {
    match module {
        Some((id, properties)) => Some((id, reports_of(properties@))),
        None => None,
    }
}

/// Answers a request to list the components of a device.
#[derive(Copy, Clone, PartialEq, Eq, Debug, Structural)]
pub struct ListComponentsResponder {
    pub request_id: u8,
    pub dyn_list_report_v1: bool,
}

impl ListComponentsResponder {
    /// The responder for `request` if it asks for a listing.
    pub fn opt_from(request: &Request) -> (r: Option<Self>)
        ensures
            r == match *request {
                Request::ListComponents(id) => Some(
                    ListComponentsResponder { request_id: id, dyn_list_report_v1: false },
                ),
                Request::ListComponentsWithReportV1(id) => Some(
                    ListComponentsResponder { request_id: id, dyn_list_report_v1: true },
                ),
                _ => None,
            },
    {
        match request {
            Request::ListComponents(id) => Some(
                ListComponentsResponder { request_id: *id, dyn_list_report_v1: false },
            ),
            Request::ListComponentsWithReportV1(id) => Some(
                ListComponentsResponder { request_id: *id, dyn_list_report_v1: true },
            ),
            _ => None,
        }
    }

    /// The header of the answer: a list of ids, or a list of reports.
    pub open spec fn header(&self) -> Response {
        Response::Okay(
            self.request_id,
            if self.dyn_list_report_v1 {
                Format::ValueOnly(Type::DynListPropertyReportV1)
            } else {
                Format::AddressOnly(Type::PropertyId)
            },
        )
    }

    /// The whole answer: the header, an entry for each property of the
    /// base table, and an entry for each property of the module.
    pub open spec fn listing(
        &self,
        base: Seq<ReportView>,
        module: Option<(ModuleId, Seq<ReportView>)>,
    ) -> Seq<u8> {
        self.header().encoding() + base_entries(self.dyn_list_report_v1, base)
            + registered_entries(self.dyn_list_report_v1, module)
    }

    /// Writes the answer: the header, then every property of the base
    /// table, then every property of the module under the module's prefix.
    /// Returns the number of bytes written.
    pub fn write<W: Write, RF, WF, MRF, MWF>(
        &self,
        response_writer: &mut W,
        properties: &[Property<RF, WF>],
        module_properties: Option<(ModuleId, &[Property<MRF, MWF>])>,
    ) -> (r: Result<usize, Error>)
        ensures
            appended(
                old(response_writer).written(),
                old(response_writer).room(),
                final(response_writer).written(),
                final(response_writer).room(),
                self.listing(reports_of(properties@), registered_reports(module_properties)),
                r,
            ),
    {
        let with_reports = self.dyn_list_report_v1;
        let ghost start = response_writer.written();
        let ghost head = self.header().encoding();
        let ghost body = base_entries(with_reports, reports_of(properties@));
        let ghost tail = registered_entries(with_reports, registered_reports(module_properties));
        let available_before = response_writer.available();
        let header = Response::Okay(
            self.request_id,
            if with_reports {
                Format::ValueOnly(Type::DynListPropertyReportV1)
            } else {
                Format::AddressOnly(Type::PropertyId)
            },
        );
        header.write(response_writer)?;
        write_base_entries(with_reports, response_writer, properties)?;
        assert(response_writer.written() =~= start + (head + body));
        if let Some((module_id, module_table)) = module_properties {
            write_module_entries(with_reports, module_id, response_writer, module_table)?;
        }
        assert(response_writer.written() =~= start + (head + body + tail));
        Ok(available_before - response_writer.available())
    }
}

/// Writes the entry of one property of the base table.
fn write_base_entry<W: Write, RF, WF>(
    with_reports: bool,
    writer: &mut W,
    property: &Property<RF, WF>,
) -> (r: Result<usize, Error>)
    ensures
        appended(
            old(writer).written(),
            old(writer).room(),
            final(writer).written(),
            final(writer).room(),
            base_entry(with_reports, property.report()),
            r,
        ),
{
    let ghost start = writer.written();
    let ghost id = PropertyId::encoding_of(property.id@);
    let n = PropertyId::from_slice(property.id).write(writer)?;
    if with_reports {
        let m = write_report_fields(
            writer,
            property.type_hint,
            property.description,
            &property.complexity,
            property.read.is_some(),
            property.write.is_some(),
        )?;
        assert(writer.written() =~= start + (id + property.report().encoding_without_id()));
        Ok(n + m)
    } else {
        Ok(n)
    }
}

/// Writes the entry of one property of a module: the id under the module's
/// prefix, and the rest of the report where reports are asked for.
fn write_module_entry<W: Write, RF, WF>(
    with_reports: bool,
    module_id: ModuleId,
    writer: &mut W,
    property: &Property<RF, WF>,
) -> (r: Result<usize, Error>)
    ensures
        appended(
            old(writer).written(),
            old(writer).room(),
            final(writer).written(),
            final(writer).room(),
            module_entry(with_reports, module_id, property.report()),
            r,
        ),
{
    let ghost start = writer.written();
    let ghost id = module_id_encoding(module_id, property.id@);
    let prefix_len: u8 = 4;
    let id_len: u8 = if property.id.len() > (u8::MAX - prefix_len) as usize {
        u8::MAX - prefix_len
    } else {
        property.id.len() as u8
    };
    let len = prefix_len + id_len;
    let prefix = [ComponentRoot::Module.code(), module_id.group, module_id.id, module_id.ext];
    let mut count = writer.write_u8(len)?;
    count = count + writer.write_all(prefix.as_slice())?;
    count = count + writer.write_all(slice_subrange(property.id, 0, id_len as usize))?;
    assert(writer.written() =~= start + id);
    if with_reports {
        count = count + write_report_fields(
            writer,
            property.type_hint,
            property.description,
            &property.complexity,
            property.read.is_some(),
            property.write.is_some(),
        )?;
        assert(writer.written() =~= start + (id + property.report().encoding_without_id()));
    }
    Ok(count)
}

/// Writes the entries of the base table in the table's order.
fn write_base_entries<W: Write, RF, WF>(
    with_reports: bool,
    writer: &mut W,
    properties: &[Property<RF, WF>],
) -> (r: Result<usize, Error>)
    ensures
        appended(
            old(writer).written(),
            old(writer).room(),
            final(writer).written(),
            final(writer).room(),
            base_entries(with_reports, reports_of(properties@)),
            r,
        ),
{
    let ghost start = writer.written();
    let ghost room = writer.room();
    let ghost reports = reports_of(properties@);
    let available_before = writer.available();
    let mut i: usize = 0;
    assert(reports.take(0) =~= Seq::<ReportView>::empty());
    assert(writer.written() =~= start + Seq::<u8>::empty());
    while i < properties.len()
        invariant
            i <= properties.len(),
            reports == reports_of(properties@),
            room == old(writer).room(),
            available_before == room,
            base_entries(with_reports, reports.take(i as int)).len() <= room,
            writer.written() == start + base_entries(with_reports, reports.take(i as int)),
            writer.room() == room - base_entries(with_reports, reports.take(i as int)).len(),
        decreases properties.len() - i,
    {
        proof {
            assert(reports.take(i + 1).drop_last() =~= reports.take(i as int));
            assert(reports.take(i + 1).last() == properties[i as int].report());
            base_entries_grow(with_reports, reports, i + 1);
        }
        let ghost before = writer.written();
        write_base_entry(with_reports, writer, &properties[i])?;
        assert(writer.written() =~= start + base_entries(with_reports, reports.take(i + 1)));
        i += 1;
    }
    assert(reports.take(i as int) =~= reports);
    Ok(available_before - writer.available())
}

/// Writes the entries of a module's table in the table's order.
fn write_module_entries<W: Write, RF, WF>(
    with_reports: bool,
    module_id: ModuleId,
    writer: &mut W,
    properties: &[Property<RF, WF>],
) -> (r: Result<usize, Error>)
    ensures
        appended(
            old(writer).written(),
            old(writer).room(),
            final(writer).written(),
            final(writer).room(),
            module_entries(with_reports, module_id, reports_of(properties@)),
            r,
        ),
{
    let ghost start = writer.written();
    let ghost room = writer.room();
    let ghost reports = reports_of(properties@);
    let available_before = writer.available();
    let mut i: usize = 0;
    assert(reports.take(0) =~= Seq::<ReportView>::empty());
    assert(writer.written() =~= start + Seq::<u8>::empty());
    while i < properties.len()
        invariant
            i <= properties.len(),
            reports == reports_of(properties@),
            room == old(writer).room(),
            available_before == room,
            module_entries(with_reports, module_id, reports.take(i as int)).len() <= room,
            writer.written() == start + module_entries(
                with_reports,
                module_id,
                reports.take(i as int),
            ),
            writer.room() == room - module_entries(
                with_reports,
                module_id,
                reports.take(i as int),
            ).len(),
        decreases properties.len() - i,
    {
        proof {
            assert(reports.take(i + 1).drop_last() =~= reports.take(i as int));
            assert(reports.take(i + 1).last() == properties[i as int].report());
            module_entries_grow(with_reports, module_id, reports, i + 1);
        }
        write_module_entry(with_reports, module_id, writer, &properties[i])?;
        assert(writer.written() =~= start + module_entries(
            with_reports,
            module_id,
            reports.take(i + 1),
        ));
        i += 1;
    }
    assert(reports.take(i as int) =~= reports);
    Ok(available_before - writer.available())
}

/// How many bytes of a path a retrieval looks at.
pub const PID_PATH_MAX_DEPTH: usize = 8;

/// The number of path bytes that a retrieval reads for a declared length.
pub open spec fn path_len(prop_id_len: u8) -> nat {
    if prop_id_len > 8 {
        8
    } else {
        prop_id_len as nat
    }
}

/// Whether `path` lies below the registered module: the `Module` root and
/// the module's three bytes, in this order, start it.
pub open spec fn addresses_module(path: Seq<u8>, module: Option<ModuleId>) -> bool {
    &&& path.len() >= 4
    &&& path[0] == ComponentRoot::Module.spec_code()
    &&& module matches Some(id) && path[1] == id.group && path[2] == id.id && path[3] == id.ext
}

/// The place of the first entry whose id is exactly `wanted`.
pub open spec fn first_match(reports: Seq<ReportView>, wanted: Seq<u8>) -> Option<int>
    decreases reports.len(),
{
    if reports.len() == 0 {
        None
    } else {
        match first_match(reports.drop_last(), wanted) {
            Some(place) => Some(place),
            None => if reports.last().id == wanted {
                Some(reports.len() - 1)
            } else {
                None
            },
        }
    }
}

/// A match among the first entries of a table is the match of the table.
pub proof fn first_match_stays(reports: Seq<ReportView>, wanted: Seq<u8>, count: int)
    requires
        0 <= count <= reports.len(),
        first_match(reports.take(count), wanted) is Some,
    ensures
        first_match(reports, wanted) == first_match(reports.take(count), wanted),
    decreases reports.len() - count,
{
    if count < reports.len() {
        assert(reports.take(count + 1).drop_last() =~= reports.take(count));
        first_match_stays(reports, wanted, count + 1);
    } else {
        assert(reports.take(count) =~= reports);
    }
}

/// The first match, where there is one, is an entry with exactly the
/// wanted id, and no entry before it has that id.
pub proof fn first_match_is_first(reports: Seq<ReportView>, wanted: Seq<u8>)
    ensures
        match first_match(reports, wanted) {
            Some(place) => 0 <= place < reports.len() && reports[place].id == wanted
                && forall|earlier: int|
                0 <= earlier < place ==> reports[earlier].id != wanted,
            None => forall|any: int| 0 <= any < reports.len() ==> reports[any].id != wanted,
        },
    decreases reports.len(),
{
    if reports.len() > 0 {
        first_match_is_first(reports.drop_last(), wanted);
        assert(forall|i: int|
            0 <= i < reports.len() - 1 ==> reports.drop_last()[i] == reports[i]);
    }
}

/// Where a retrieval finds the property that a path names.
pub enum Lookup {
    /// An entry of the base table.
    Base(int),
    /// An entry of the module's table.
    Module(int),
    /// No entry.
    Missing,
}

/// The entry that `path` names. A path below the registered module is
/// looked up in the module's table alone, by what follows the module's
/// prefix; every other path in the base table alone, as a whole. Only an
/// entry whose id equals the path byte for byte is found.
pub open spec fn lookup(
    path: Seq<u8>,
    base: Seq<ReportView>,
    module: Option<(ModuleId, Seq<ReportView>)>,
) -> Lookup {
    match module {
        Some((id, reports)) if addresses_module(path, Some(id)) => match first_match(
            reports,
            path.skip(4),
        ) {
            Some(place) => Lookup::Module(place),
            None => Lookup::Missing,
        },
        _ => match first_match(base, path) {
            Some(place) => Lookup::Base(place),
            None => Lookup::Missing,
        },
    }
}

/// An id that no entry of either table has is not found: for a path below
/// the registered module, the id that counts is what follows the module's
/// prefix, and the table that counts is the module's; for any other path
/// it is the whole path and the base table.
pub proof fn absent_is_missing(
    path: Seq<u8>,
    base: Seq<ReportView>,
    module: Option<(ModuleId, Seq<ReportView>)>,
)
    requires
        forall|place: int| 0 <= place < base.len() ==> base[place].id != path,
        module matches Some((_, reports)) ==> forall|place: int|
            0 <= place < reports.len() ==> reports[place].id != path.skip(4),
    ensures
        lookup(path, base, module) == Lookup::Missing,
{
    first_match_is_first(base, path);
    match module {
        Some((_, reports)) => first_match_is_first(reports, path.skip(4)),
        None => {},
    }
}

/// An id that an entry of the base table has is found there, at the first
/// entry that has it, unless the path lies below the registered module.
pub proof fn present_is_found(
    path: Seq<u8>,
    base: Seq<ReportView>,
    module: Option<(ModuleId, Seq<ReportView>)>,
    place: int,
)
    requires
        0 <= place < base.len(),
        base[place].id == path,
        !(module matches Some((id, _)) && addresses_module(path, Some(id))),
    ensures
        lookup(path, base, module) matches Lookup::Base(found) && 0 <= found <= place
            && base[found].id == path,
{
    first_match_is_first(base, path);
}

/// The header that precedes the value of a property: the value's type is
/// the property's type hint, or `DynBytes` where it has none.
pub open spec fn value_header(request_id: u8, type_hint: Option<Type>) -> Response {
    Response::Okay(
        request_id,
        Format::ValueOnly(
            match type_hint {
                Some(t) => t,
                None => Type::DynBytes,
            },
        ),
    )
}

/// Whether `reader` can be called whatever it is handed.
pub open spec fn always_callable<P, T, RF: Fn(&mut P, &mut T, &mut ValueBuffer) -> Result<
    usize,
    Error,
>>(reader: RF) -> bool {
    forall|platform: &mut P, target: &mut T, buffer: &mut ValueBuffer| #[trigger]
        call_requires(reader, (platform, target, buffer))
}

/// Whether every reader of a table can be called whatever it is handed.
pub open spec fn all_callable<P, T, RF: Fn(&mut P, &mut T, &mut ValueBuffer) -> Result<
    usize,
    Error,
>, WF>(properties: Seq<Property<RF, WF>>) -> bool {
    forall|place: int|
        0 <= place < properties.len() ==> (#[trigger] properties[place].read matches Some(
            reader,
        ) ==> always_callable::<P, T, RF>(reader))
}

/// What an answer with a value leaves behind, given the outcome of the
/// reader's call and the payload that it put into the buffer: where it
/// succeeded the payload follows the header, as far as there is room for
/// it, and the answer is the number of bytes written in all; its error is
/// the answer's error. The reader
/// is called once, on the platform and the target as they were and on an
/// empty buffer with as much room as the header left.
pub open spec fn value_follows(
    header: Seq<u8>,
    payload: Seq<u8>,
    outcome: Result<usize, Error>,
    written_before: Seq<u8>,
    room_before: nat,
    written_after: Seq<u8>,
    room_after: nat,
    result: Result<usize, Error>,
) -> bool {
    match outcome {
        Ok(_) => appended(
            written_before,
            room_before,
            written_after,
            room_after,
            header + payload,
            result,
        ),
        Err(e) => result == Err::<usize, Error>(e),
    }
}

/// Answers a request to retrieve one property. The path of the property
/// follows the request in `payload`.
pub struct RetrievePropertyResponder<'a, R: Read> {
    pub request_id: u8,
    pub prop_id_len: u8,
    pub payload: &'a mut R,
}

/// The place of the first entry of `properties` whose id is `wanted`.
fn find_property<RF, WF>(properties: &[Property<RF, WF>], wanted: &[u8]) -> (place: Option<
    usize,
>)
    ensures
        match first_match(reports_of(properties@), wanted@) {
            Some(found) => place == Some(found as usize) && 0 <= found < properties@.len(),
            None => place is None,
        },
{
    let ghost reports = reports_of(properties@);
    let mut i: usize = 0;
    assert(reports.take(0) =~= Seq::<ReportView>::empty());
    while i < properties.len()
        invariant
            i <= properties.len(),
            reports == reports_of(properties@),
            first_match(reports.take(i as int), wanted@) is None,
        decreases properties.len() - i,
    {
        proof {
            assert(reports.take(i + 1).drop_last() =~= reports.take(i as int));
            assert(reports.take(i + 1).last() == properties[i as int].report());
        }
        if same_bytes(properties[i].id, wanted) {
            proof {
                assert(first_match(reports.take(i + 1), wanted@) == Some(i as int));
                first_match_stays(reports, wanted@, i + 1);
            }
            return Some(i);
        }
        i += 1;
    }
    assert(reports.take(i as int) =~= reports);
    None
}

impl<'a, R: Read> RetrievePropertyResponder<'a, R> {
    /// The responder for `request` if it asks for a property; `payload` is
    /// where the property's path will be read from.
    pub fn opt_from(request: &Request, payload: &'a mut R) -> (r: Option<Self>)
        ensures
            match *request {
                Request::RetrieveProperty(id, len) => r matches Some(responder)
                    && responder.request_id == id && responder.prop_id_len == len
                    && *responder.payload == *old(payload) && *final(responder.payload)
                    == *final(payload),
                _ => r is None,
            },
    {
        if let Request::RetrieveProperty(id, len) = request {
            Some(RetrievePropertyResponder { request_id: *id, prop_id_len: *len, payload })
        } else {
            None
        }
    }

    /// Reads the path, looks the property up and answers: with the value's
    /// header and the value where the property is found and can be read,
    /// with `NotAvailable` in every other case.
    pub fn write<
        P,
        T,
        M,
        W: Write,
        RF: Fn(&mut P, &mut T, &mut ValueBuffer) -> Result<usize, Error>,
        WF,
        MRF: Fn(&mut P, &mut M, &mut ValueBuffer) -> Result<usize, Error>,
        MWF,
    >(
        self,
        response_writer: &mut W,
        properties: &[Property<RF, WF>],
        module_properties: Option<(ModuleId, &[Property<MRF, MWF>])>,
        p: &mut P,
        t: &mut T,
        m: &mut M,
    ) -> (r: Result<usize, Error>)
        requires
            all_callable::<P, T, RF, WF>(properties@),
            module_properties matches Some((_, table)) ==> all_callable::<P, M, MRF, MWF>(
                table@,
            ),
        ensures
            old(self.payload).remaining().len() < path_len(self.prop_id_len) ==> {
                &&& r == Err::<usize, Error>(Error::UnexpectedEOF)
                &&& final(response_writer).written() == old(response_writer).written()
                &&& final(response_writer).room() == old(response_writer).room()
                &&& *final(p) == *old(p)
                &&& *final(t) == *old(t)
                &&& *final(m) == *old(m)
            },
            old(self.payload).remaining().len() >= path_len(self.prop_id_len) ==> {
                let count = path_len(self.prop_id_len) as int;
                let path = old(self.payload).remaining().take(count);
                &&& final(self.payload).remaining() =~= old(self.payload).remaining().skip(count)
                &&& match lookup(
                    path,
                    reports_of(properties@),
                    registered_reports(module_properties),
                ) {
                    Lookup::Base(place) if properties@[place].read is Some => {
                        let header = value_header(
                            self.request_id,
                            properties@[place].type_hint,
                        ).encoding();
                        &&& *final(m) == *old(m)
                        &&& old(response_writer).room() < header.len() ==> {
                            &&& r == Err::<usize, Error>(Error::BufferToSmall)
                            &&& *final(p) == *old(p)
                            &&& *final(t) == *old(t)
                        }
                        &&& old(response_writer).room() >= header.len() ==> exists|
                            platform: &mut P,
                            target: &mut T,
                            buffer: &mut ValueBuffer,
                            outcome: Result<usize, Error>,
                        |
                            {
                                &&& *platform == *old(p)
                                &&& *target == *old(t)
                                &&& buffer.written() == Seq::<u8>::empty()
                                &&& buffer.room() == (old(response_writer).room() - header.len()) as nat
                                &&& #[trigger] call_ensures(
                                    properties@[place].read->Some_0,
                                    (platform, target, buffer),
                                    outcome,
                                )
                                &&& *final(platform) == *final(p)
                                &&& *final(target) == *final(t)
                                &&& value_follows(
                                    header,
                                    final(buffer).written(),
                                    outcome,
                                    old(response_writer).written(),
                                    old(response_writer).room(),
                                    final(response_writer).written(),
                                    final(response_writer).room(),
                                    r,
                                )
                            }
                    },
                    Lookup::Module(place) if module_properties->Some_0.1@[place].read is Some => {
                        let header = value_header(
                            self.request_id,
                            module_properties->Some_0.1@[place].type_hint,
                        ).encoding();
                        &&& *final(t) == *old(t)
                        &&& old(response_writer).room() < header.len() ==> {
                            &&& r == Err::<usize, Error>(Error::BufferToSmall)
                            &&& *final(p) == *old(p)
                            &&& *final(m) == *old(m)
                        }
                        &&& old(response_writer).room() >= header.len() ==> exists|
                            platform: &mut P,
                            target: &mut M,
                            buffer: &mut ValueBuffer,
                            outcome: Result<usize, Error>,
                        |
                            {
                                &&& *platform == *old(p)
                                &&& *target == *old(m)
                                &&& buffer.written() == Seq::<u8>::empty()
                                &&& buffer.room() == (old(response_writer).room() - header.len()) as nat
                                &&& #[trigger] call_ensures(
                                    module_properties->Some_0.1@[place].read->Some_0,
                                    (platform, target, buffer),
                                    outcome,
                                )
                                &&& *final(platform) == *final(p)
                                &&& *final(target) == *final(m)
                                &&& value_follows(
                                    header,
                                    final(buffer).written(),
                                    outcome,
                                    old(response_writer).written(),
                                    old(response_writer).room(),
                                    final(response_writer).written(),
                                    final(response_writer).room(),
                                    r,
                                )
                            }
                    },
                    _ => {
                        &&& appended(
                            old(response_writer).written(),
                            old(response_writer).room(),
                            final(response_writer).written(),
                            final(response_writer).room(),
                            Response::NotAvailable(self.request_id).encoding(),
                            r,
                        )
                        &&& *final(p) == *old(p)
                        &&& *final(t) == *old(t)
                        &&& *final(m) == *old(m)
                    },
                }
            },
    {
        let RetrievePropertyResponder { request_id, prop_id_len, payload } = self;
        let available_before = response_writer.available();
        let len: usize = if (prop_id_len as usize) < PID_PATH_MAX_DEPTH {
            prop_id_len as usize
        } else {
            PID_PATH_MAX_DEPTH
        };
        let ghost input = payload.remaining();
        let mut buffer = [0u8; 8];
        let mut i: usize = 0;
        while i < len
            invariant
                i <= len <= 8,
                len == path_len(prop_id_len),
                prop_id_len == self.prop_id_len,
                response_writer.written() == old(response_writer).written(),
                response_writer.room() == old(response_writer).room(),
                *p == *old(p),
                *t == *old(t),
                *m == *old(m),
                input == old(self.payload).remaining(),
                input.len() >= i,
                payload.remaining() =~= input.skip(i as int),
                buffer@.take(i as int) =~= input.take(i as int),
            decreases len - i,
        {
            let byte = payload.read_u8()?;
            buffer[i] = byte;
            i += 1;
        }
        let pid_path = slice_subrange(buffer.as_slice(), 0, len);
        assert(pid_path@ =~= input.take(len as int));

        let in_module = match &module_properties {
            Some((module, _)) => len >= 4 && pid_path[0] == ComponentRoot::Module.code()
                && pid_path[1] == module.group && pid_path[2] == module.id && pid_path[3]
                == module.ext,
            None => false,
        };
        if in_module {
            if let Some((_, module_table)) = module_properties {
                let prop_id = slice_subrange(pid_path, 4, len);
                if let Some(place) = find_property(module_table, prop_id) {
                    let property = &module_table[place];
                    if let Some(read_fn) = &property.read {
                        answer_with_value(
                            request_id,
                            property.type_hint,
                            read_fn,
                            response_writer,
                            p,
                            m,
                        )?;
                    }
                }
            }
        } else {
            if let Some(place) = find_property(properties, pid_path) {
                let property = &properties[place];
                if let Some(read_fn) = &property.read {
                    answer_with_value(
                        request_id,
                        property.type_hint,
                        read_fn,
                        response_writer,
                        p,
                        t,
                    )?;
                }
            }
        }

        if available_before == response_writer.available() {
            Response::NotAvailable(request_id).write(response_writer)?;
        }
        Ok(available_before - response_writer.available())
    }
}

/// Writes the header of a value and lets the property's reader write the
/// value behind it.
fn answer_with_value<P, T, W: Write, RF: Fn(&mut P, &mut T, &mut ValueBuffer) -> Result<
    usize,
    Error,
>>(
    request_id: u8,
    type_hint: Option<Type>,
    read_fn: &RF,
    writer: &mut W,
    platform: &mut P,
    target: &mut T,
) -> (r: Result<usize, Error>)
    requires
        always_callable::<P, T, RF>(*read_fn),
    ensures
        old(writer).room() < value_header(request_id, type_hint).encoding().len() ==> {
            &&& r == Err::<usize, Error>(Error::BufferToSmall)
            &&& *final(platform) == *old(platform)
            &&& *final(target) == *old(target)
        },
        old(writer).room() >= value_header(request_id, type_hint).encoding().len() ==> exists|
            called_platform: &mut P,
            called_target: &mut T,
            buffer: &mut ValueBuffer,
            outcome: Result<usize, Error>,
        |
            {
                &&& *called_platform == *old(platform)
                &&& *called_target == *old(target)
                &&& buffer.written() == Seq::<u8>::empty()
                &&& buffer.room() == (old(writer).room() - value_header(request_id, type_hint).encoding().len()) as nat
                &&& #[trigger] call_ensures(
                    *read_fn,
                    (called_platform, called_target, buffer),
                    outcome,
                )
                &&& *final(called_platform) == *final(platform)
                &&& *final(called_target) == *final(target)
                &&& value_follows(
                    value_header(request_id, type_hint).encoding(),
                    final(buffer).written(),
                    outcome,
                    old(writer).written(),
                    old(writer).room(),
                    final(writer).written(),
                    final(writer).room(),
                    r,
                )
            },
        r is Ok ==> final(writer).room() < old(writer).room(),
{
    let ghost start = writer.written();
    let ghost header = value_header(request_id, type_hint).encoding();
    let value_type = match type_hint {
        Some(t) => t,
        None => Type::DynBytes,
    };
    let available_before = writer.available();
    Response::Okay(request_id, Format::ValueOnly(value_type)).write(writer)?;
    let mut buffer = ValueBuffer::with_room(writer.available());
    read_fn(platform, target, &mut buffer)?;
    let payload = buffer.as_slice();
    writer.write_all(payload)?;
    assert(writer.written() =~= start + (header + payload@));
    Ok(available_before - writer.available())
}

} // verus!
