//! The DDC/CI command channel: finding a monitor by its device description
//! and the brightness/contrast writes that a command asks for.

use vstd::prelude::*;
use crate::text::{chars_of, contains_chars, contains_seq};

verus! {

/// A command for the DDC worker.
#[derive(Debug, Clone, Copy)]
pub enum DdcCommand {
    /// Set brightness and/or contrast of the device at `idx`, after a pause
    /// when `delay` is set.
    ApplyByIndex { idx: usize, brightness: Option<u32>, contrast: Option<u32>, delay: bool },
}

/// The VCP code of contrast.
pub const VCP_CONTRAST: u8 = 0x12;

/// One write to a monitor's VCP features.
#[derive(Debug, Clone, Copy, PartialEq, Eq)]
pub enum VcpWrite {
    /// Set the brightness.
    Brightness(u32),
    /// Set the VCP feature `code` to `value`.
    Feature(u8, u32),
}

/// The writes for a brightness and contrast request: brightness first, then
/// contrast as VCP feature `0x12`.
pub open spec fn vcp_writes_spec(brightness: Option<u32>, contrast: Option<u32>) -> Seq<VcpWrite> {
    let b: Seq<VcpWrite> = match brightness {
        Some(v) => seq![VcpWrite::Brightness(v)],
        None => Seq::empty(),
    };
    match contrast {
        Some(c) => b.push(VcpWrite::Feature(0x12, c)),
        None => b,
    }
}

/// The writes for a brightness and contrast request.
pub fn vcp_writes(brightness: Option<u32>, contrast: Option<u32>) -> (r: Vec<VcpWrite>)
    ensures
        r@ == vcp_writes_spec(brightness, contrast),
{
    let mut out: Vec<VcpWrite> = Vec::new();
    match brightness {
        Some(v) => out.push(VcpWrite::Brightness(v)),
        None => {},
    }
    match contrast {
        Some(c) => out.push(VcpWrite::Feature(VCP_CONTRAST, c)),
        None => {},
    }
    assert(out@ =~= vcp_writes_spec(brightness, contrast));
    out
}

impl DdcCommand {
    /// Whether the worker pauses before this command.
    pub fn delay(&self) -> (r: bool)
        ensures
            r == (match *self { DdcCommand::ApplyByIndex { delay, .. } => delay }),
    {
        match self {
            DdcCommand::ApplyByIndex { delay, .. } => *delay,
        }
    }

    /// The device this command is for.
    pub fn index(&self) -> (r: usize)
        ensures
            r == (match *self { DdcCommand::ApplyByIndex { idx, .. } => idx }),
    {
        match self {
            DdcCommand::ApplyByIndex { idx, .. } => *idx,
        }
    }

    /// The writes this command asks for.
    pub fn writes(&self) -> (r: Vec<VcpWrite>)
        ensures
            r@ == (match *self {
                DdcCommand::ApplyByIndex { brightness, contrast, .. } => vcp_writes_spec(brightness, contrast),
            }),
    {
        match self {
            DdcCommand::ApplyByIndex { brightness, contrast, .. } => vcp_writes(*brightness, *contrast),
        }
    }
}

/// A device description and a monitor name refer to the same monitor when
/// either contains the other.
pub open spec fn device_matches(info: Seq<char>, name: Seq<char>) -> bool {
    contains_seq(info, name) || contains_seq(name, info)
}

/// The first device whose description matches `name`.
pub open spec fn first_matching_device(devices: Seq<Seq<char>>, name: Seq<char>) -> Option<usize>
    decreases devices.len(),
{
    if devices.len() == 0 {
        None
    } else {
        match first_matching_device(devices.drop_last(), name) {
            Some(i) => Some(i),
            None => if device_matches(devices.last(), name) {
                Some((devices.len() - 1) as usize)
            } else {
                None
            },
        }
    }
}

/// The index of the first device whose description matches `name`.
pub fn find_matching_device(devices: &Vec<String>, name: &str) -> (r: Option<usize>)
    ensures
        r == first_matching_device(devices.deep_view(), name@),
{
    let target = chars_of(name);
    let mut i: usize = 0;
    while i < devices.len()
        invariant
            i <= devices.len(),
            target@ == name@,
            first_matching_device(devices.deep_view().take(i as int), name@) is None,
        decreases devices.len() - i,
    {
        let ghost pre = devices.deep_view().take(i as int);
        let ghost pre1 = devices.deep_view().take(i + 1);
        proof {
            assert(pre1.drop_last() =~= pre);
            assert(pre1.last() == devices@[i as int]@);
        }
        let info = chars_of(devices[i].as_str());
        if contains_chars(&info, &target) || contains_chars(&target, &info) {
            proof {
                assert(device_matches(pre1.last(), name@));
                assert(first_matching_device(pre1, name@) == Some(i));
                lemma_first_match_prefix(devices.deep_view(), name@, i + 1);
            }
            return Some(i);
        }
        i = i + 1;
    }
    assert(devices.deep_view().take(i as int) =~= devices.deep_view());
    None
}

proof fn lemma_first_match_prefix(devices: Seq<Seq<char>>, name: Seq<char>, k: int)
    requires
        0 < k <= devices.len(),
        first_matching_device(devices.take(k), name) is Some,
    ensures
        first_matching_device(devices, name) == first_matching_device(devices.take(k), name),
    decreases devices.len() - k,
{
    if k == devices.len() {
        assert(devices.take(k) =~= devices);
    } else {
        assert(devices.drop_last().take(k) =~= devices.take(k));
        lemma_first_match_prefix(devices.drop_last(), name, k);
    }
}

/// The DDC channel: the worker's command sender and the descriptions of the
/// devices it drives, in the worker's order.
pub struct DdcControl {
    pub tx: std::sync::mpsc::Sender<DdcCommand>,
    pub devices: Vec<String>,
}

/// `std::sync::mpsc::Sender`, carried through as an opaque value: nothing is
/// claimed about what it holds.
#[verifier::external_type_specification]
#[verifier::external_body]
#[verifier::reject_recursive_types(T)]
pub struct ExSender<T>(std::sync::mpsc::Sender<T>);

/// Hands a command to the worker (`Sender::send`); a closed channel drops it.
/// The result records, as a ghost value, the command handed to `send`;
/// nothing is claimed about whether the worker receives it.
#[verifier::external_body]
fn send_command(tx: &std::sync::mpsc::Sender<DdcCommand>, cmd: DdcCommand) -> (sent: Ghost<DdcCommand>)
    ensures
        sent@ == cmd,
{
    let sent = Ghost(cmd);
    let _ = tx.send(cmd);
    sent
}

impl DdcControl {
    /// A channel over an existing worker.
    pub fn from_parts(tx: std::sync::mpsc::Sender<DdcCommand>, devices: Vec<String>) -> (r: Self)
        ensures
            r.devices@ == devices@,
    {
        DdcControl { tx, devices }
    }

    /// The index of the first device whose description contains `target_name`
    /// or is contained in it.
    pub fn find_device_index_by_name(&self, target_name: &str) -> (r: Option<usize>)
        ensures
            r == first_matching_device(self.devices.deep_view(), target_name@),
    {
        find_matching_device(&self.devices, target_name)
    }

    /// Asks the worker to set brightness and contrast of the device at `idx`;
    /// the result is the command handed to the channel.
    pub fn apply_by_index(&self, idx: usize, brightness: Option<u32>, contrast: Option<u32>, delay: bool) -> (sent: Ghost<DdcCommand>)
        ensures
            sent@ == (DdcCommand::ApplyByIndex { idx, brightness, contrast, delay }),
    {
        send_command(&self.tx, DdcCommand::ApplyByIndex { idx, brightness, contrast, delay })
    }
}

} // verus!
