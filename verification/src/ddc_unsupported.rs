//! DDC/CI on systems that do not offer it: there are no monitors, and none can be controlled.

use vstd::prelude::*;
use crate::ddc::DdcMonitor;
use crate::wmi::WmiMonitorId;

verus! {

/// The message for a request that needs DDC/CI.
pub open spec fn unsupported() -> Seq<char> {
    "DDC/CI is only supported on Windows."@
}

/// There are no monitors.
pub fn list_ddc_monitors(_ids: &[WmiMonitorId]) -> (r: Result<Vec<DdcMonitor>, String>)
    ensures
        r matches Ok(list) && list@.len() == 0,
{
    Ok(Vec::new())
}

/// No level can be read.
pub fn get_ddc_brightness(_index: usize) -> (r: Result<u32, String>)
    ensures
        r matches Err(e) && e@ == unsupported(),
{
    Err("DDC/CI is only supported on Windows.".to_string())
}

/// No level can be set.
pub fn set_ddc_brightness(_index: usize, _percent: u32) -> (r: Result<(), String>)
    ensures
        r matches Err(e) && e@ == unsupported(),
{
    Err("DDC/CI is only supported on Windows.".to_string())
}

/// There are no devices.
pub fn get_active_hmonitor_tokens() -> (r: Vec<String>)
    ensures
        r@.len() == 0,
{
    Vec::new()
}

/// There are no devices.
pub fn get_active_hmonitor_count() -> (r: usize)
    ensures
        r == 0,
{
    0
}

} // verus!
