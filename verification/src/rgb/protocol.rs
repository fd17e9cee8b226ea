//! Controller-data parsing as the first OpenRGB client did it: every field is
//! read in turn, and errors are reported as text.
use vstd::prelude::*;
pub use crate::role::application::rgb::protocol::{RgbColor, OpenRGBDevice};
use crate::role::application::rgb::protocol::{parse_payload, spec_device_payload};

verus! {

/// Reads the controller-data payload of device `index`, reading (rather than
/// skipping) every field before the initial colors. Fails with the text of the
/// field at which the data ended.
pub fn parse_device_payload(index: u32, data: &[u8]) -> (r: Result<OpenRGBDevice, &'static str>)
    ensures
        match spec_device_payload(index, data@, true) {
            Ok(v) => r matches Ok(dev) && dev@ == v,
            Err(e) => r matches Err(m) && m@ == e.text(),
        },
{
    match parse_payload(index, data, true) {
        Ok(dev) => Ok(dev),
        Err(e) => Err(e.message()),
    }
}

} // verus!
