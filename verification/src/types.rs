use vstd::prelude::*;

verus! {

/// Mathematical model of one device record: every field of
/// [`HidDeviceInfo`] as a plain mathematical value.
pub ghost struct RecordModel {
    pub path: Seq<char>,
    pub vendor_id: u16,
    pub product_id: u16,
    pub serial_number: Seq<char>,
    pub release_number: u16,
    pub manufacturer_string: Seq<char>,
    pub product_string: Seq<char>,
    pub usage_page: u16,
    pub usage: u16,
    pub interface_number: int,
}

impl RecordModel {
    /// A record is well formed when it names a device (its path is non-empty)
    /// and its interface number is a two-hex-digit index or the sentinel -1.
    pub open spec fn wf(self) -> bool {
        &&& self.path.len() > 0
        &&& (self.interface_number == -1 || 0 <= self.interface_number <= 255)
    }
}

/// One discovered HID device.
///
/// `path` is the opaque OS identifier under which the device can be reopened;
/// it is never empty.  The three string fields are empty when the device
/// declines to report them, `vendor_id`, `product_id` and `release_number`
/// are zero when the attribute query fails, and `usage_page` and `usage` are
/// zero when the capability query fails.  `interface_number` is the
/// sub-interface index read out of `path`, or -1 when the path names none.
#[derive(Debug, Clone)]
pub struct HidDeviceInfo {
    pub path: String,
    pub vendor_id: u16,
    pub product_id: u16,
    pub serial_number: String,
    pub release_number: u16,
    pub manufacturer_string: String,
    pub product_string: String,
    pub usage_page: u16,
    pub usage: u16,
    pub interface_number: i32,
}

impl View for HidDeviceInfo {
    type V = RecordModel;

    open spec fn view(&self) -> RecordModel {
        RecordModel {
            path: self.path@,
            vendor_id: self.vendor_id,
            product_id: self.product_id,
            serial_number: self.serial_number@,
            release_number: self.release_number,
            manufacturer_string: self.manufacturer_string@,
            product_string: self.product_string@,
            usage_page: self.usage_page,
            usage: self.usage,
            interface_number: self.interface_number as int,
        }
    }
}

} // verus!
