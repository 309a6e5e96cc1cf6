//! The enumeration routine.
//!
//! The scan walks the OS device-interface set by index.  For each index a
//! fixed pipeline of OS queries is made; [`DeviceProbe`] holds their raw
//! answers as plain values.  The logic here decides, from one probe, whether
//! the scan stops or one more record is produced, and what every field of
//! that record is; [`enumerate_from`] folds that decision over a sequence of
//! probes exactly as the scan loop does.

use vstd::prelude::*;

use crate::iface::{lemma_interface_number_range, spec_interface_number};
use crate::text::{
    lemma_nul_cut_u8, nul_prefix_len_u8, nul_prefix_u8, prefix_vec_u8, spec_decode_narrow,
    spec_decode_wide,
};
use crate::types::{HidDeviceInfo, RecordModel};
use vstd::utf8::decode_utf8;

verus! {

/// The fixed-size attribute block of a device: identity numbers.
#[derive(Debug, Clone, Copy, PartialEq, Eq, Structural)]
pub struct HidAttributes {
    pub vendor_id: u16,
    pub product_id: u16,
    pub release_number: u16,
}

/// The capability classifiers parsed out of a device's capability blob.
#[derive(Debug, Clone, Copy, PartialEq, Eq, Structural)]
pub struct HidCaps {
    pub usage_page: u16,
    pub usage: u16,
}

/// What the OS answered for one index of the scan.
///
/// Each field holds the raw result of one step of the per-index pipeline;
/// `None` (or `false`) means that step failed.  The steps that come after a
/// failed structural step are never consulted, so their values are
/// irrelevant then.
#[derive(Debug, Clone)]
pub struct DeviceProbe {
    /// An interface entry exists at this index; `false` is the normal end of
    /// the scan.
    pub interface_present: bool,
    /// Raw bytes of the detail record's device path; only the prefix before
    /// the first null byte is read.  `None` when the size query or the fetch
    /// failed.
    pub detail_path: Option<Vec<u8>>,
    /// Raw bytes of the registry class property of the device-info entry;
    /// `None` when the entry or the property could not be read.
    pub class_name: Option<Vec<u8>>,
    /// The registry driver property could be read.
    pub driver_ok: bool,
    /// The device could be opened at its path.
    pub opened: bool,
    /// The attribute block, `None` when the query failed.
    pub attributes: Option<HidAttributes>,
    /// Usage page and usage, `None` when the capability query or its parse
    /// failed.
    pub caps: Option<HidCaps>,
    /// Raw code units answered by the serial-number query, `None` on failure.
    pub serial_number: Option<Vec<u16>>,
    /// Raw code units answered by the manufacturer query, `None` on failure.
    pub manufacturer_string: Option<Vec<u16>>,
    /// Raw code units answered by the product query, `None` on failure.
    pub product_string: Option<Vec<u16>>,
}

/// Bytes of the class name `"HIDClass"`.
pub open spec fn hidclass_name() -> Seq<u8> {
    seq![0x48u8, 0x49u8, 0x44u8, 0x43u8, 0x6cu8, 0x61u8, 0x73u8, 0x73u8]
}

/// Bytes of the class name `"Mouse"`.
pub open spec fn mouse_name() -> Seq<u8> {
    seq![0x4du8, 0x6fu8, 0x75u8, 0x73u8, 0x65u8]
}

/// Bytes of the class name `"Keyboard"`.
pub open spec fn keyboard_name() -> Seq<u8> {
    seq![0x4bu8, 0x65u8, 0x79u8, 0x62u8, 0x6fu8, 0x61u8, 0x72u8, 0x64u8]
}

/// The driver-class filter accepts exactly the class names `"HIDClass"`,
/// `"Mouse"` and `"Keyboard"`.
pub open spec fn spec_accepted_class(name: Seq<u8>) -> bool {
    name == hidclass_name() || name == mouse_name() || name == keyboard_name()
}

fn is_prefix_hidclass(name: &Vec<u8>, n: usize) -> (r: bool)
    requires
        n <= name@.len(),
    ensures
        r == (name@.take(n as int) == hidclass_name()),
{
    let r = n == 8 && name[0] == 0x48 && name[1] == 0x49 && name[2] == 0x44 && name[3] == 0x43
        && name[4] == 0x6c && name[5] == 0x61 && name[6] == 0x73 && name[7] == 0x73;
    proof {
        if r {
            assert(name@.take(n as int) =~= hidclass_name());
        } else {
            if name@.take(n as int) == hidclass_name() {
                assert(name@.take(n as int).len() == 8);
                assert(forall|k: int| 0 <= k < 8 ==> name@.take(8)[k] == #[trigger] name@[k]);
                assert(false);
            }
        }
    }
    r
}

fn is_prefix_mouse(name: &Vec<u8>, n: usize) -> (r: bool)
    requires
        n <= name@.len(),
    ensures
        r == (name@.take(n as int) == mouse_name()),
{
    let r = n == 5 && name[0] == 0x4d && name[1] == 0x6f && name[2] == 0x75 && name[3] == 0x73
        && name[4] == 0x65;
    proof {
        if r {
            assert(name@.take(n as int) =~= mouse_name());
        } else {
            if name@.take(n as int) == mouse_name() {
                assert(name@.take(n as int).len() == 5);
                assert(forall|k: int| 0 <= k < 5 ==> name@.take(5)[k] == #[trigger] name@[k]);
                assert(false);
            }
        }
    }
    r
}

fn is_prefix_keyboard(name: &Vec<u8>, n: usize) -> (r: bool)
    requires
        n <= name@.len(),
    ensures
        r == (name@.take(n as int) == keyboard_name()),
{
    let r = n == 8 && name[0] == 0x4b && name[1] == 0x65 && name[2] == 0x79 && name[3] == 0x62
        && name[4] == 0x6f && name[5] == 0x61 && name[6] == 0x72 && name[7] == 0x64;
    proof {
        if r {
            assert(name@.take(n as int) =~= keyboard_name());
        } else {
            if name@.take(n as int) == keyboard_name() {
                assert(name@.take(n as int).len() == 8);
                assert(forall|k: int| 0 <= k < 8 ==> name@.take(8)[k] == #[trigger] name@[k]);
                assert(false);
            }
        }
    }
    r
}

/// Does the class property in `name`, read up to its first null byte, name
/// an accepted device class?
pub fn class_accepted(name: &Vec<u8>) -> (r: bool)
    ensures
        r == spec_accepted_class(nul_prefix_u8(name@)),
{
    proof {
        lemma_nul_cut_u8(name@);
    }
    let n = nul_prefix_len_u8(name);
    is_prefix_hidclass(name, n) || is_prefix_mouse(name, n) || is_prefix_keyboard(name, n)
}

/// The probe's class property, up to its first null byte, names an accepted
/// class.
pub open spec fn spec_class_ok(p: DeviceProbe) -> bool {
    p.class_name matches Some(c) && spec_accepted_class(nul_prefix_u8(c@))
}

/// The probe's detail bytes hold a usable path: up to the first null byte
/// they decode as UTF-8 to a non-empty string.
pub open spec fn spec_path_ok(p: DeviceProbe) -> bool {
    p.detail_path matches Some(d) && (spec_decode_narrow(d@) matches Some(s) && s.len() > 0)
}

/// The probe ends the scan: one of the structural steps — interface lookup,
/// detail resolution, class filter, driver property, open, path capture —
/// failed.  The attribute, capability and string queries never stop the
/// scan.
pub open spec fn spec_stops(p: DeviceProbe) -> bool {
    ||| !p.interface_present
    ||| p.detail_path is None
    ||| !spec_class_ok(p)
    ||| !p.driver_ok
    ||| !p.opened
    ||| !spec_path_ok(p)
}

/// The field decoded from one wide-string query: the decoded answer, or
/// empty when the query failed.
pub open spec fn spec_wide_field(w: Option<Vec<u16>>) -> Seq<char> {
    match w {
        Some(v) => spec_decode_wide(v@),
        None => Seq::empty(),
    }
}

/// The record produced from a probe that does not stop the scan.
pub open spec fn spec_record_of(p: DeviceProbe) -> RecordModel
    recommends
        !spec_stops(p),
{
    let path_bytes = nul_prefix_u8(p.detail_path.unwrap()@);
    RecordModel {
        path: decode_utf8(path_bytes),
        vendor_id: match p.attributes {
            Some(a) => a.vendor_id,
            None => 0,
        },
        product_id: match p.attributes {
            Some(a) => a.product_id,
            None => 0,
        },
        release_number: match p.attributes {
            Some(a) => a.release_number,
            None => 0,
        },
        serial_number: spec_wide_field(p.serial_number),
        manufacturer_string: spec_wide_field(p.manufacturer_string),
        product_string: spec_wide_field(p.product_string),
        usage_page: match p.caps {
            Some(c) => c.usage_page,
            None => 0,
        },
        usage: match p.caps {
            Some(c) => c.usage,
            None => 0,
        },
        interface_number: spec_interface_number(path_bytes),
    }
}

/// What one index of the scan contributes: `None` ends the scan, `Some`
/// appends a record.
pub open spec fn spec_process(p: DeviceProbe) -> Option<RecordModel> {
    if spec_stops(p) {
        None
    } else {
        Some(spec_record_of(p))
    }
}

fn wide_field(w: &Option<Vec<u16>>) -> (r: String)
    ensures
        r@ == spec_wide_field(*w),
{
    match w {
        Some(v) => crate::text::decode_wide(v),
        None => String::new(),
    }
}

/// Decide one index of the scan from the OS answers in `p`: either the scan
/// stops here (`None`), or the record for this device is produced, every
/// field as [`spec_record_of`] states it.
pub fn process_entry(p: &DeviceProbe) -> (r: Option<HidDeviceInfo>)
    ensures
        r is Some <==> !spec_stops(*p),
        r matches Some(d) ==> d@ == spec_record_of(*p),
{
    if !p.interface_present {
        return None;
    }
    let detail = match &p.detail_path {
        Some(d) => d,
        None => {
            return None;
        },
    };
    let class_ok = match &p.class_name {
        Some(c) => class_accepted(c),
        None => false,
    };
    if !class_ok {
        return None;
    }
    if !p.driver_ok {
        return None;
    }
    if !p.opened {
        return None;
    }
    let path = match crate::text::decode_narrow(detail) {
        Some(s) => s,
        None => {
            return None;
        },
    };
    if path.as_str().is_empty() {
        return None;
    }
    proof {
        lemma_nul_cut_u8(detail@);
    }
    let n = nul_prefix_len_u8(detail);
    let path_bytes = prefix_vec_u8(detail, n);
    let interface_number = crate::iface::interface_number_of_path(&path_bytes);
    let (vendor_id, product_id, release_number) = match &p.attributes {
        Some(a) => (a.vendor_id, a.product_id, a.release_number),
        None => (0, 0, 0),
    };
    let (usage_page, usage) = match &p.caps {
        Some(c) => (c.usage_page, c.usage),
        None => (0, 0),
    };
    let record = HidDeviceInfo {
        path,
        vendor_id,
        product_id,
        serial_number: wide_field(&p.serial_number),
        release_number,
        manufacturer_string: wide_field(&p.manufacturer_string),
        product_string: wide_field(&p.product_string),
        usage_page,
        usage,
        interface_number,
    };
    Some(record)
}

/// The records of a whole scan over `probes`, in order: one per probe up to
/// but not including the first probe that stops the scan.
pub open spec fn spec_enumerate(probes: Seq<DeviceProbe>) -> Seq<RecordModel>
    decreases probes.len(),
{
    if probes.len() == 0 {
        Seq::empty()
    } else {
        match spec_process(probes[0]) {
            Some(r) => seq![r] + spec_enumerate(probes.drop_first()),
            None => Seq::empty(),
        }
    }
}

/// The models of a sequence of records.
pub open spec fn records_model(rs: Seq<HidDeviceInfo>) -> Seq<RecordModel> {
    rs.map_values(|d: HidDeviceInfo| d@)
}

/// The enumeration loop: walk `probes` in index order, appending one record
/// per probe, and stop at the first probe whose structural steps failed —
/// the rest of `probes` contributes nothing.  Never an error: the result is
/// the (possibly empty, possibly truncated) list itself.
pub fn enumerate_from(probes: &Vec<DeviceProbe>) -> (r: Vec<HidDeviceInfo>)
    ensures
        records_model(r@) == spec_enumerate(probes@),
        probes@.len() == 0 ==> r@.len() == 0,
{
    let mut result: Vec<HidDeviceInfo> = Vec::new();
    let mut index: usize = 0;
    proof {
        assert(probes@.skip(0) == probes@);
        assert(records_model(result@) + spec_enumerate(probes@) =~= spec_enumerate(probes@));
    }
    while index < probes.len()
        invariant
            index <= probes@.len(),
            spec_enumerate(probes@) == records_model(result@) + spec_enumerate(
                probes@.skip(index as int),
            ),
        ensures
            spec_enumerate(probes@) == records_model(result@),
        decreases probes@.len() - index,
    {
        let ghost prev = result@;
        match process_entry(&probes[index]) {
            Some(d) => {
                proof {
                    assert(spec_process(probes@[index as int]) == Some(d@));
                    assert(probes@.skip(index as int)[0] == probes@[index as int]);
                    assert(probes@.skip(index as int).drop_first() =~= probes@.skip(
                        index as int + 1,
                    ));
                }
                result.push(d);
                proof {
                    assert(records_model(result@) =~= records_model(prev) + seq![d@]);
                    assert((records_model(prev) + seq![d@]) + spec_enumerate(
                        probes@.skip(index as int + 1),
                    ) =~= records_model(prev) + (seq![d@] + spec_enumerate(
                        probes@.skip(index as int + 1),
                    )));
                }
                index += 1;
            },
            None => {
                proof {
                    assert(spec_process(probes@[index as int]) is None);
                    assert(probes@.skip(index as int)[0] == probes@[index as int]);
                    assert(spec_enumerate(probes@.skip(index as int)) =~= Seq::empty());
                    assert(records_model(result@) + Seq::<RecordModel>::empty() =~= records_model(
                        result@,
                    ));
                }
                break ;
            },
        }
    }
    proof {
        if index == probes@.len() {
            assert(spec_enumerate(probes@.skip(probes@.len() as int)) =~= Seq::empty());
        }
    }
    result
}

/// Law: every record of a scan is well formed — its path is non-empty and
/// its interface number is a two-hex-digit index or the sentinel -1.
pub proof fn lemma_records_well_formed(probes: Seq<DeviceProbe>)
    ensures
        forall|i: int|
            0 <= i < spec_enumerate(probes).len() ==> (#[trigger] spec_enumerate(probes)[i]).wf(),
    decreases probes.len(),
{
    if probes.len() > 0 {
        match spec_process(probes[0]) {
            Some(r) => {
                lemma_records_well_formed(probes.drop_first());
                lemma_interface_number_range(nul_prefix_u8(probes[0].detail_path.unwrap()@));
                assert(r.wf());
                assert forall|i: int| 0 <= i < spec_enumerate(probes).len() implies (
                #[trigger] spec_enumerate(probes)[i]).wf() by {
                    if i > 0 {
                        assert(spec_enumerate(probes)[i] == spec_enumerate(probes.drop_first())[i
                            - 1]);
                    }
                }
            },
            None => {},
        }
    }
}

/// Law: the scan stops globally at the first failing probe.  When every
/// probe before `i` yields a record and probe `i` fails a structural step —
/// for instance its class property is outside the accepted set — the scan
/// returns exactly the records of the probes before `i`; the probes after
/// `i` are never consulted, even ones that would have matched.
pub proof fn lemma_scan_truncates(probes: Seq<DeviceProbe>, i: int)
    requires
        0 <= i <= probes.len(),
        forall|j: int| 0 <= j < i ==> spec_process(#[trigger] probes[j]) is Some,
        i < probes.len() ==> spec_stops(probes[i]),
    ensures
        spec_enumerate(probes).len() == i,
        forall|j: int|
            0 <= j < i ==> spec_enumerate(probes)[j] == spec_record_of(#[trigger] probes[j]),
    decreases probes.len(),
{
    if i == 0 {
    } else {
        assert(spec_process(probes[0]) is Some);
        lemma_scan_truncates(probes.drop_first(), i - 1);
        assert forall|j: int| 0 <= j < i implies spec_enumerate(probes)[j] == spec_record_of(
            #[trigger] probes[j],
        ) by {
            if j > 0 {
                assert(spec_enumerate(probes)[j] == spec_enumerate(probes.drop_first())[j - 1]);
                assert(probes.drop_first()[j - 1] == probes[j]);
            }
        }
    }
}

/// Law: a probe whose class property, up to its first null byte, is not
/// exactly one of the accepted names ends the scan at once.
pub proof fn lemma_rejected_class_stops(p: DeviceProbe)
    requires
        !spec_class_ok(p),
    ensures
        spec_process(p) is None,
{
}

/// Law: a failed attribute query is soft — the probe still yields a record,
/// with zero vendor, product and release numbers, and the scan goes on.
pub proof fn lemma_attribute_failure_soft(p: DeviceProbe)
    requires
        !spec_stops(p),
        p.attributes is None,
    ensures
        spec_process(p) matches Some(r) && r.vendor_id == 0 && r.product_id == 0
            && r.release_number == 0,
{
}

/// Law: whether the scan stops at a probe depends on its structural steps
/// alone — never on the attribute, capability or string queries.
pub proof fn lemma_stop_ignores_soft_fields(p: DeviceProbe, q: DeviceProbe)
    requires
        q.interface_present == p.interface_present,
        q.detail_path == p.detail_path,
        q.class_name == p.class_name,
        q.driver_ok == p.driver_ok,
        q.opened == p.opened,
    ensures
        spec_stops(q) == spec_stops(p),
{
}

/// Law: enumeration is a function of the probes alone, so two consecutive
/// scans of an unchanged device set produce the same records, field for
/// field.
pub proof fn lemma_enumeration_idempotent(a: Seq<DeviceProbe>, b: Seq<DeviceProbe>)
    requires
        a == b,
    ensures
        spec_enumerate(a) == spec_enumerate(b),
{
}

/// Law: with no device present the scan returns the empty sequence — not an
/// error.
pub proof fn lemma_empty_scan(probes: Seq<DeviceProbe>)
    requires
        probes.len() == 0,
    ensures
        spec_enumerate(probes) == Seq::<RecordModel>::empty(),
{
}

} // verus!
