//! What the driver reads from the HID descriptions of the device: its
//! top-level collections and the ranges of the pen.

use vstd::prelude::*;

verus! {

/// One top-level collection of the device.
#[derive(Clone, Debug, PartialEq, Eq)]
pub struct HidInterface {
    /// The device path, as UTF-16 with a terminating zero.
    pub path: Vec<u16>,
    pub usage_page: u16,
    pub input_len: usize,
    pub output_len: usize,
}

/// The ranges of the pen, as the tablet collection declares them.
#[derive(Clone, Copy, Debug, PartialEq, Eq, Structural)]
pub struct PenRanges {
    pub x_max: u16,
    pub y_max: u16,
    pub pressure_max: u16,
}

impl Default for PenRanges {
    /// The ranges measured on the device, for when it is not there.
    fn default() -> (r: PenRanges)
        ensures
            r == (PenRanges { x_max: 28800, y_max: 16200, pressure_max: 8191 }),
    {
        PenRanges { x_max: 28800, y_max: 16200, pressure_max: 8191 }
    }
}

/// One value capability of an input report: its usage and logical maximum.
#[derive(Clone, Copy, Debug, PartialEq, Eq, Structural)]
pub struct ValueCap {
    pub usage_page: u16,
    pub usage: u16,
    pub logical_max: i32,
}

/// The logical maximum of the last capability with the given usage, 0 where none has it.
pub open spec fn last_max(caps: Seq<ValueCap>, usage_page: u16, usage: u16) -> i32
    decreases caps.len(),
{
    if caps.len() == 0 {
        0
    } else if caps.last().usage_page == usage_page && caps.last().usage == usage {
        caps.last().logical_max
    } else {
        last_max(caps.drop_last(), usage_page, usage)
    }
}

/// The pen ranges that a collection declares: only the tablet collection
/// (usage page 0x0d, usage 0x02) declares them, through X (0x01/0x30), Y
/// (0x01/0x31) and tip pressure (0x0d/0x30), each of which must be positive.
/// The maxima are kept in 16 bits.
pub open spec fn pen_ranges_spec(usage_page: u16, usage: u16, caps: Seq<ValueCap>) -> Option<PenRanges> {
    let x = last_max(caps, 0x01, 0x30);
    let y = last_max(caps, 0x01, 0x31);
    let p = last_max(caps, 0x0d, 0x30);
    if usage_page != 0x0d || usage != 0x02 || x <= 0 || y <= 0 || p <= 0 {
        None
    } else {
        Some(PenRanges { x_max: x as u16, y_max: y as u16, pressure_max: p as u16 })
    }
}

/// Reads the pen ranges from the value capabilities of a collection.
pub fn pen_ranges_from_caps(usage_page: u16, usage: u16, caps: &[ValueCap]) -> (r: Option<PenRanges>)
    ensures
        r == pen_ranges_spec(usage_page, usage, caps@),
{
    if usage_page != 0x0d || usage != 0x02 {
        return None;
    }
    let mut x_max: i32 = 0;
    let mut y_max: i32 = 0;
    let mut pressure_max: i32 = 0;
    let mut i: usize = 0;
    while i < caps.len()
        invariant
            i <= caps@.len(),
            x_max == last_max(caps@.take(i as int), 0x01, 0x30),
            y_max == last_max(caps@.take(i as int), 0x01, 0x31),
            pressure_max == last_max(caps@.take(i as int), 0x0d, 0x30),
        decreases caps@.len() - i,
    {
        let cap = caps[i];
        assert(caps@.take(i + 1).drop_last() =~= caps@.take(i as int));
        assert(caps@.take(i + 1).last() == cap);
        if cap.usage_page == 0x01 && cap.usage == 0x30 {
            x_max = cap.logical_max;
        } else if cap.usage_page == 0x01 && cap.usage == 0x31 {
            y_max = cap.logical_max;
        } else if cap.usage_page == 0x0d && cap.usage == 0x30 {
            pressure_max = cap.logical_max;
        }
        i = i + 1;
    }
    assert(caps@.take(caps@.len() as int) =~= caps@);
    if x_max <= 0 || y_max <= 0 || pressure_max <= 0 {
        return None;
    }
    Some(PenRanges { x_max: x_max as u16, y_max: y_max as u16, pressure_max: pressure_max as u16 })
}

/// The first collection with the given usage page.
pub fn find_interface(interfaces: &[HidInterface], usage_page: u16) -> (r: Option<usize>)
    ensures
        match r {
            Some(i) => i < interfaces@.len() && interfaces@[i as int].usage_page == usage_page
                && forall|j: int| 0 <= j < i ==> (#[trigger] interfaces@[j]).usage_page != usage_page,
            None => forall|j: int|
                0 <= j < interfaces@.len() ==> (#[trigger] interfaces@[j]).usage_page != usage_page,
        },
{
    let mut i: usize = 0;
    while i < interfaces.len()
        invariant
            i <= interfaces@.len(),
            forall|j: int| 0 <= j < i ==> (#[trigger] interfaces@[j]).usage_page != usage_page,
        decreases interfaces@.len() - i,
    {
        if interfaces[i].usage_page == usage_page {
            return Some(i);
        }
        i = i + 1;
    }
    None
}

/// An output report: `data` followed by zeros up to `len` bytes; none when
/// `data` is longer than the collection allows.
pub fn padded_report(data: &[u8], len: usize) -> (r: Option<Vec<u8>>)
    ensures
        data@.len() > len <==> r is None,
        r matches Some(report) ==> report@ == data@ + Seq::new((len - data@.len()) as nat, |i: int| 0u8),
{
    if data.len() > len {
        return None;
    }
    let mut report: Vec<u8> = Vec::new();
    for i in 0..data.len()
        invariant
            report@ == data@.take(i as int),
    {
        report.push(data[i]);
        assert(report@ =~= data@.take(i + 1));
    }
    assert(data@.take(data@.len() as int) =~= data@);
    let ghost n = data@.len();
    let mut k: usize = data.len();
    while k < len
        invariant
            n <= k <= len,
            report@ == data@ + Seq::new((k - n) as nat, |i: int| 0u8),
        decreases len - k,
    {
        report.push(0u8);
        k = k + 1;
        assert(report@ =~= data@ + Seq::new((k - n) as nat, |i: int| 0u8));
    }
    Some(report)
}

} // verus!
