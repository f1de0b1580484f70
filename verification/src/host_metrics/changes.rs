//! What changed between two readings, and what is shown of it. Rates are worked out from the
//! changes and the time between the readings; here each has its label and a number by which it
//! is ordered.

use vstd::prelude::*;

use super::readings::{
    unsupported_detail, CounterSample, CpuSample, DeviceCounterSample, ProcessIoCounter,
    ProcessIoRead, ProcessIoSample,
};
use crate::decimal::{decimal, natural_text};
use crate::order::{
    is_ranked, is_sorted_from, sort_ranked, text_before, text_less, text_order_is_strict, text_order_is_transitive,
    Ranking,
};
use crate::pieces::option_text;
use crate::text::same_text;

verus! {

/// How many devices and processes are shown.
pub const SHOWN: usize = 20;

/// By how much a counter has grown; one that was set back has not grown.
pub open spec fn growth(old: u64, new: u64) -> u64 {
    if new > old {
        (new - old) as u64
    } else {
        0
    }
}

fn grown(old: u64, new: u64) -> (by: u64)
    ensures
        by == growth(old, new),
{
    if new > old {
        new - old
    } else {
        0
    }
}

// ---------------------------------------------------------------------------
// Processors and memory
// ---------------------------------------------------------------------------

/// How long the processors were busy between two readings, and how long in all.
#[derive(Debug, Clone, Copy, PartialEq, Eq, Structural)]
pub struct CpuChange {
    pub busy: u64,
    pub total: u64,
}

/// What changed since the reading before, of which there is none at first.
pub open spec fn cpu_changed(previous: Option<CpuSample>, current: CpuSample) -> CpuChange {
    match previous {
        Some(old) => {
            let total = growth(old.total, current.total);
            CpuChange { busy: growth(growth(old.idle, current.idle), total), total }
        },
        None => CpuChange { busy: 0, total: 0 },
    }
}

/// Takes a reading of the processors.
pub fn cpu_change(previous: &mut Option<CpuSample>, current: CpuSample) -> (change: CpuChange)
    ensures
        change == cpu_changed(*old(previous), current),
        *final(previous) == Some(current),
{
    let change = match previous {
        Some(old) => {
            let idle: u64 = grown(old.idle, current.idle);
            let total: u64 = grown(old.total, current.total);
            CpuChange { busy: grown(idle, total), total }
        },
        None => CpuChange { busy: 0, total: 0 },
    };
    *previous = Some(current);
    change
}

/// The memory that is in use.
pub fn memory_used(total: u64, available: u64) -> (used: u64)
    ensures
        used == growth(available, total),
{
    grown(available, total)
}

// ---------------------------------------------------------------------------
// Disks and network
// ---------------------------------------------------------------------------

/// What a device has done between two readings.
#[derive(Debug, Clone)]
pub struct DeviceChange {
    pub name: String,
    pub read: u64,
    pub write: u64,
    pub busy_millis: u64,
}

/// What was read and written between two readings, and the time between them; at first there is
/// no time to speak of.
#[derive(Debug, Clone)]
pub struct CounterChange {
    pub read: u64,
    pub write: u64,
    pub devices: Vec<DeviceChange>,
    pub elapsed_nanos: Option<u64>,
}

/// The position of a device among others, where it is among them.
pub open spec fn device_position(
    devices: Seq<(String, DeviceCounterSample)>,
    name: Seq<char>,
) -> Option<int>
    decreases devices.len(),
{
    if devices.len() == 0 {
        None
    } else if devices.last().0@ == name {
        Some(devices.len() - 1)
    } else {
        device_position(devices.drop_last(), name)
    }
}

/// A device as a mathematical value: its name, what it has read and written, and how long it was
/// busy.
pub open spec fn change_views(changes: Seq<DeviceChange>) -> Seq<(Seq<char>, u64, u64, u64)> {
    changes.map_values(|change: DeviceChange| (
        change.name@,
        change.read,
        change.write,
        change.busy_millis,
    ))
}

/// What the devices did that are in both readings.
pub open spec fn devices_changed(
    old: Seq<(String, DeviceCounterSample)>,
    current: Seq<(String, DeviceCounterSample)>,
) -> Seq<(Seq<char>, u64, u64, u64)>
    decreases current.len(),
{
    if current.len() == 0 {
        Seq::empty()
    } else {
        let before = devices_changed(old, current.drop_last());
        let (name, new) = current.last();
        match device_position(old, name@) {
            Some(at) => before.push(
                (
                    name@,
                    growth(old[at].1.read, new.read),
                    growth(old[at].1.write, new.write),
                    growth(old[at].1.busy_millis, new.busy_millis),
                ),
            ),
            None => before,
        }
    }
}

fn find_device(devices: &Vec<(String, DeviceCounterSample)>, name: &str) -> (at: Option<usize>)
    ensures
        match at {
            Some(at) => device_position(devices@, name@) == Some(at as int) && at < devices@.len(),
            None => device_position(devices@, name@) is None,
        },
{
    let mut end: usize = devices.len();
    assert(devices@.take(end as int) =~= devices@);
    while end > 0
        invariant
            end <= devices@.len(),
            device_position(devices@.take(end as int), name@) == device_position(devices@, name@),
        decreases end,
    {
        assert(devices@.take(end as int).drop_last() =~= devices@.take(end - 1));
        end = end - 1;
        if same_text(devices[end].0.as_str(), name) {
            return Some(end);
        }
    }
    None
}

fn device_changes(
    old: &Vec<(String, DeviceCounterSample)>,
    current: &Vec<(String, DeviceCounterSample)>,
) -> (changes: Vec<DeviceChange>)
    ensures
        change_views(changes@) == devices_changed(old@, current@),
{
    let mut changes: Vec<DeviceChange> = Vec::new();
    let mut i: usize = 0;
    assert(change_views(changes@) =~= devices_changed(old@, current@.take(0)));
    while i < current.len()
        invariant
            i <= current@.len(),
            change_views(changes@) == devices_changed(old@, current@.take(i as int)),
        decreases current@.len() - i,
    {
        assert(current@.take(i + 1).drop_last() =~= current@.take(i as int));
        let ghost before = change_views(changes@);
        match find_device(old, current[i].0.as_str()) {
            Some(at) => {
                let change = DeviceChange {
                    name: current[i].0.clone(),
                    read: grown(old[at].1.read, current[i].1.read),
                    write: grown(old[at].1.write, current[i].1.write),
                    busy_millis: grown(old[at].1.busy_millis, current[i].1.busy_millis),
                };
                changes.push(change);
                assert(change_views(changes@) =~= before.push(
                    (change.name@, change.read, change.write, change.busy_millis),
                ));
            },
            None => {},
        }
        i = i + 1;
    }
    assert(current@.take(i as int) =~= current@);
    changes
}

/// What changed since the reading before, if there was one.
pub open spec fn is_change(
    previous: Option<CounterSample>,
    new: CounterSample,
    change: CounterChange,
) -> bool {
    match previous {
        None => {
            &&& change.read == 0
            &&& change.write == 0
            &&& change.devices@.len() == 0
            &&& change.elapsed_nanos is None
        },
        Some(before) => {
            &&& change.read == growth(before.read, new.read)
            &&& change.write == growth(before.write, new.write)
            &&& change_views(change.devices@) == devices_changed(before.devices@, new.devices@)
            &&& change.elapsed_nanos == Some(growth(before.sampled_at_nanos, new.sampled_at_nanos))
        },
    }
}

/// Takes a reading of the disks or of the network: what changed since the reading before. Without
/// a reading nothing is known, and the one before is kept.
pub fn rate_metric(previous: &mut Option<CounterSample>, current: Option<CounterSample>) -> (change:
    Option<CounterChange>)
    ensures
        match current {
            None => change is None && *final(previous) == *old(previous),
            Some(new) => {
                &&& *final(previous) == Some(new)
                &&& change is Some
                &&& is_change(*old(previous), new, change->0)
            },
        },
{
    let new = match current {
        Some(new) => new,
        None => return None,
    };
    let change = match previous {
        None => CounterChange { read: 0, write: 0, devices: Vec::new(), elapsed_nanos: None },
        Some(before) => CounterChange {
            read: grown(before.read, new.read),
            write: grown(before.write, new.write),
            devices: device_changes(&before.devices, &new.devices),
            elapsed_nanos: Some(grown(before.sampled_at_nanos, new.sampled_at_nanos)),
        },
    };
    *previous = Some(new);
    Some(change)
}

/// What is said of two rates.
pub fn rate_detail(
    read_prefix: &str,
    read_label: &str,
    write_prefix: &str,
    write_label: &str,
) -> (text: String)
    ensures
        text@ == read_prefix@ + " "@ + read_label@ + " · "@ + write_prefix@ + " "@ + write_label@,
{
    read_prefix.to_owned().concat(" ").concat(read_label).concat(" · ").concat(
        write_prefix,
    ).concat(" ").concat(write_label)
}

/// What is shown of a device.
#[derive(Debug, Clone)]
pub struct RateDeviceMetric {
    pub name: String,
    pub read_label: String,
    pub write_label: String,
    pub total_label: String,
    pub utilization_label: String,
}

/// A device with the numbers that its place depends on: a device that was busier, or did more,
/// has a larger one.
#[derive(Debug, Clone)]
pub struct RatedDevice {
    pub metric: RateDeviceMetric,
    pub utilization_order: u64,
    pub total_order: u64,
}

/// The busiest devices first, among those that were as busy the ones that did the most, and then
/// by name.
pub struct BusiestFirst;

impl Ranking<RatedDevice> for BusiestFirst {
    open spec fn ranks_before(left: RatedDevice, right: RatedDevice) -> bool {
        if left.utilization_order != right.utilization_order {
            left.utilization_order > right.utilization_order
        } else if left.total_order != right.total_order {
            left.total_order > right.total_order
        } else {
            text_before(left.metric.name@, right.metric.name@)
        }
    }

    proof fn ranking_is_order(a: RatedDevice, b: RatedDevice, c: RatedDevice) {
        lemma_names(a.metric.name@, b.metric.name@, c.metric.name@);
    }

    fn comes_before(left: &RatedDevice, right: &RatedDevice) -> (before: bool) {
        if left.utilization_order != right.utilization_order {
            left.utilization_order > right.utilization_order
        } else if left.total_order != right.total_order {
            left.total_order > right.total_order
        } else {
            text_less(left.metric.name.as_str(), right.metric.name.as_str())
        }
    }
}

/// The order of texts is strict, and texts that are on a par are equal.
proof fn lemma_names(a: Seq<char>, b: Seq<char>, c: Seq<char>)
    ensures
        text_before(a, b) ==> !text_before(b, a),
        !text_before(b, a) && !text_before(c, b) ==> !text_before(c, a),
        !text_before(a, b) && !text_before(b, a) ==> a == b,
        !text_before(b, c) && !text_before(c, b) ==> b == c,
{
    text_order_is_strict(a, b);
    text_order_is_strict(b, c);
    text_order_is_strict(a, c);
    if text_before(a, b) && text_before(b, c) {
        text_order_is_transitive(a, b, c);
    }
}

/// The first of all in their order, at most as many as are shown. What is on a par stays in the
/// order that it had.
pub open spec fn is_top<T, R: Ranking<T>>(all: Seq<T>, shown: Seq<T>) -> bool {
    exists|ordered: Seq<T>|
        #![trigger is_sorted_from::<T, R>(all, ordered)]
        {
            &&& is_sorted_from::<T, R>(all, ordered)
            &&& ordered.to_multiset() == all.to_multiset()
            &&& shown == (if ordered.len() <= SHOWN {
                ordered
            } else {
                ordered.take(SHOWN as int)
            })
        }
}

fn top<T, R: Ranking<T>>(all: Vec<T>) -> (shown: Vec<T>)
    ensures
        is_top::<T, R>(all@, shown@),
{
    let mut shown = sort_ranked::<T, R>(all);
    let ghost ordered = shown@;
    if shown.len() > SHOWN {
        shown.truncate(SHOWN);
        assert(shown@ =~= ordered.take(SHOWN as int));
    }
    assert(is_sorted_from::<T, R>(all@, ordered));
    shown
}

/// The devices that are shown, in order.
pub fn disk_rate_devices(rated: Vec<RatedDevice>) -> (shown: Vec<RatedDevice>)
    ensures
        is_top::<RatedDevice, BusiestFirst>(rated@, shown@),
{
    top::<RatedDevice, BusiestFirst>(rated)
}

// ---------------------------------------------------------------------------
// Processes
// ---------------------------------------------------------------------------

/// What is shown of a process.
#[derive(Debug, Clone)]
pub struct RateProcessMetric {
    pub pid: u32,
    pub name: String,
    pub command: String,
    pub container_id: Option<String>,
    pub read_label: String,
    pub write_label: String,
    pub total_label: String,
}

/// What a process has done between two readings.
#[derive(Debug, Clone)]
pub struct ProcessIoChange {
    pub pid: u32,
    pub name: String,
    pub command: String,
    pub container_id: Option<String>,
    pub read: u64,
    pub write: u64,
}

/// A process as a mathematical value.
pub struct ProcessShown {
    pub pid: u32,
    pub name: Seq<char>,
    pub command: Seq<char>,
    pub container_id: Option<Seq<char>>,
    pub read: u64,
    pub write: u64,
}

pub open spec fn process_views(changes: Seq<ProcessIoChange>) -> Seq<ProcessShown> {
    changes.map_values(|change: ProcessIoChange| ProcessShown {
        pid: change.pid,
        name: change.name@,
        command: change.command@,
        container_id: option_text(change.container_id),
        read: change.read,
        write: change.write,
    })
}

/// The position of a process among others, where it is among them.
pub open spec fn process_position(processes: Seq<ProcessIoCounter>, pid: u32) -> Option<int>
    decreases processes.len(),
{
    if processes.len() == 0 {
        None
    } else if processes.last().pid == pid {
        Some(processes.len() - 1)
    } else {
        process_position(processes.drop_last(), pid)
    }
}

/// What the processes did that are in both readings and that did something.
pub open spec fn processes_changed(
    old: Seq<ProcessIoCounter>,
    current: Seq<ProcessIoCounter>,
) -> Seq<ProcessShown>
    decreases current.len(),
{
    if current.len() == 0 {
        Seq::empty()
    } else {
        let before = processes_changed(old, current.drop_last());
        let new = current.last();
        match process_position(old, new.pid) {
            None => before,
            Some(at) => {
                let read = growth(old[at].read_bytes, new.read_bytes);
                let write = growth(old[at].write_bytes, new.write_bytes);
                if read == 0 && write == 0 {
                    before
                } else {
                    before.push(
                        ProcessShown {
                            pid: new.pid,
                            name: new.name@,
                            command: new.command@,
                            container_id: option_text(new.container_id),
                            read,
                            write,
                        },
                    )
                }
            },
        }
    }
}

fn find_process(processes: &Vec<ProcessIoCounter>, pid: u32) -> (at: Option<usize>)
    ensures
        match at {
            Some(at) => process_position(processes@, pid) == Some(at as int) && at
                < processes@.len(),
            None => process_position(processes@, pid) is None,
        },
{
    let mut end: usize = processes.len();
    assert(processes@.take(end as int) =~= processes@);
    while end > 0
        invariant
            end <= processes@.len(),
            process_position(processes@.take(end as int), pid) == process_position(
                processes@,
                pid,
            ),
        decreases end,
    {
        assert(processes@.take(end as int).drop_last() =~= processes@.take(end - 1));
        end = end - 1;
        if processes[end].pid == pid {
            return Some(end);
        }
    }
    None
}

fn same_id(id: &Option<String>) -> (out: Option<String>)
    ensures
        option_text(out) == option_text(*id),
{
    match id {
        Some(id) => Some(id.clone()),
        None => None,
    }
}

fn process_changes(old: &Vec<ProcessIoCounter>, current: &Vec<ProcessIoCounter>) -> (changes: Vec<
    ProcessIoChange,
>)
    ensures
        process_views(changes@) == processes_changed(old@, current@),
{
    let mut changes: Vec<ProcessIoChange> = Vec::new();
    let mut i: usize = 0;
    assert(process_views(changes@) =~= processes_changed(old@, current@.take(0)));
    while i < current.len()
        invariant
            i <= current@.len(),
            process_views(changes@) == processes_changed(old@, current@.take(i as int)),
        decreases current@.len() - i,
    {
        assert(current@.take(i + 1).drop_last() =~= current@.take(i as int));
        let ghost before = process_views(changes@);
        match find_process(old, current[i].pid) {
            Some(at) => {
                let read: u64 = grown(old[at].read_bytes, current[i].read_bytes);
                let write: u64 = grown(old[at].write_bytes, current[i].write_bytes);
                if read > 0 || write > 0 {
                    let change = ProcessIoChange {
                        pid: current[i].pid,
                        name: current[i].name.clone(),
                        command: current[i].command.clone(),
                        container_id: same_id(&current[i].container_id),
                        read,
                        write,
                    };
                    changes.push(change);
                    assert(process_views(changes@) =~= before.push(
                        ProcessShown {
                            pid: change.pid,
                            name: change.name@,
                            command: change.command@,
                            container_id: option_text(change.container_id),
                            read,
                            write,
                        },
                    ));
                }
            },
            None => {},
        }
        i = i + 1;
    }
    assert(current@.take(i as int) =~= current@);
    changes
}

/// What a reading of the processes leads to.
#[derive(Debug, Clone)]
pub enum ProcessRateStep {
    /// There is nothing to show, for this reason.
    Nothing(String),
    /// These changes, in this time, are turned into rates.
    Measure {
        changes: Vec<ProcessIoChange>,
        elapsed_nanos: u64,
        permission_denied_count: usize,
    },
}

/// Takes a reading of the processes. Where they cannot be read, the reading before is forgotten;
/// the first reading has nothing to be held against.
pub fn begin_process_rates(
    previous: &mut Option<ProcessIoSample>,
    current: Option<ProcessIoRead>,
) -> (step: ProcessRateStep)
    ensures
        match current {
            None => {
                &&& *final(previous) is None
                &&& step is Nothing
                &&& step->Nothing_0@ == "当前系统不支持采集"@
            },
            Some(new) => {
                &&& *final(previous) == Some(new.sample)
                &&& match *old(previous) {
                    None => step is Nothing && step->Nothing_0@ == "等待下一次进程 IO 采样"@,
                    Some(before) => {
                        &&& step is Measure
                        &&& process_views(step->changes@) == processes_changed(
                            before.processes@,
                            new.sample.processes@,
                        )
                        &&& step->elapsed_nanos == growth(
                            before.sampled_at_nanos,
                            new.sample.sampled_at_nanos,
                        )
                        &&& step->permission_denied_count == new.permission_denied_count
                    },
                }
            },
        },
{
    let new = match current {
        Some(new) => new,
        None => {
            *previous = None;
            return ProcessRateStep::Nothing(unsupported_detail());
        },
    };
    let step = match previous {
        None => ProcessRateStep::Nothing("等待下一次进程 IO 采样".to_owned()),
        Some(before) => ProcessRateStep::Measure {
            changes: process_changes(&before.processes, &new.sample.processes),
            elapsed_nanos: grown(before.sampled_at_nanos, new.sample.sampled_at_nanos),
            permission_denied_count: new.permission_denied_count,
        },
    };
    *previous = Some(new.sample);
    step
}

/// A process with the numbers that its place depends on: a process that did more has a larger
/// one.
#[derive(Debug, Clone)]
pub struct RatedProcess {
    pub metric: RateProcessMetric,
    pub total_order: u64,
    pub write_order: u64,
}

/// The processes first that did the most, among those that did as much the ones that wrote the
/// most, then by name and by number.
pub struct MostActiveFirst;

impl Ranking<RatedProcess> for MostActiveFirst {
    open spec fn ranks_before(left: RatedProcess, right: RatedProcess) -> bool {
        if left.total_order != right.total_order {
            left.total_order > right.total_order
        } else if left.write_order != right.write_order {
            left.write_order > right.write_order
        } else if left.metric.name@ != right.metric.name@ {
            text_before(left.metric.name@, right.metric.name@)
        } else {
            left.metric.pid < right.metric.pid
        }
    }

    proof fn ranking_is_order(a: RatedProcess, b: RatedProcess, c: RatedProcess) {
        lemma_names(a.metric.name@, b.metric.name@, c.metric.name@);
        lemma_names(c.metric.name@, a.metric.name@, b.metric.name@);
    }

    fn comes_before(left: &RatedProcess, right: &RatedProcess) -> (before: bool) {
        if left.total_order != right.total_order {
            left.total_order > right.total_order
        } else if left.write_order != right.write_order {
            left.write_order > right.write_order
        } else if !same_text(left.metric.name.as_str(), right.metric.name.as_str()) {
            text_less(left.metric.name.as_str(), right.metric.name.as_str())
        } else {
            left.metric.pid < right.metric.pid
        }
    }
}

/// What is said of the processes that are shown.
pub open spec fn process_detail(shown: nat, denied: nat) -> Seq<char> {
    if shown == 0 && denied > 0 {
        "未采集到可读进程 IO，已跳过 "@ + decimal(denied) + " 个无权限进程"@
    } else if shown == 0 {
        "暂无进程读写"@
    } else if denied > 0 {
        "按总读写速率排序，已跳过 "@ + decimal(denied) + " 个无权限进程"@
    } else {
        "按总读写速率排序"@
    }
}

/// What is shown of rated processes.
pub open spec fn metrics_of(rated: Seq<RatedProcess>) -> Seq<RateProcessMetric> {
    rated.map_values(|process: RatedProcess| process.metric)
}

/// The processes that are shown, in order, and what is said of them.
pub fn process_rate_metric(rated: Vec<RatedProcess>, permission_denied_count: usize) -> (shown: (
    Vec<RateProcessMetric>,
    String,
))
    ensures
        exists|top: Seq<RatedProcess>|
            #![trigger is_top::<RatedProcess, MostActiveFirst>(rated@, top)]
            is_top::<RatedProcess, MostActiveFirst>(rated@, top) && shown.0@ == metrics_of(top),
        shown.1@ == process_detail(shown.0@.len(), permission_denied_count as nat),
{
    let mut rest = top::<RatedProcess, MostActiveFirst>(rated);
    let ghost all = rest@;
    let mut metrics: Vec<RateProcessMetric> = Vec::new();
    assert(metrics@ =~= metrics_of(all.take(0)));
    assert(all.skip(0) =~= all);
    while rest.len() > 0
        invariant
            metrics@.len() + rest@.len() == all.len(),
            rest@ == all.skip(metrics@.len() as int),
            metrics@ == metrics_of(all.take(metrics@.len() as int)),
        decreases rest@.len(),
    {
        let ghost done = metrics@.len() as int;
        let process = rest.remove(0);
        assert(process == all[done]);
        metrics.push(process.metric);
        assert(rest@ =~= all.skip(done + 1));
        assert(metrics@ =~= metrics_of(all.take(done + 1)));
    }
    assert(all.take(metrics@.len() as int) =~= all);
    let denied = natural_text(permission_denied_count as u64);
    let detail = if metrics.len() == 0 && permission_denied_count > 0 {
        "未采集到可读进程 IO，已跳过 ".to_owned().concat(denied.as_str()).concat(" 个无权限进程")
    } else if metrics.len() == 0 {
        "暂无进程读写".to_owned()
    } else if permission_denied_count > 0 {
        "按总读写速率排序，已跳过 ".to_owned().concat(denied.as_str()).concat(" 个无权限进程")
    } else {
        "按总读写速率排序".to_owned()
    };
    (metrics, detail)
}

// ---------------------------------------------------------------------------
// Laws
// ---------------------------------------------------------------------------

/// The processors are never busy for longer than there was time.
pub proof fn processors_are_busy_at_most_all_the_time(
    previous: Option<CpuSample>,
    current: CpuSample,
)
    ensures
        cpu_changed(previous, current).busy <= cpu_changed(previous, current).total,
{
}

/// Every process that is shown to have done something is in the current reading, has read or
/// written something, and no more than it has in all.
pub proof fn shown_processes_did_something(
    old: Seq<ProcessIoCounter>,
    current: Seq<ProcessIoCounter>,
    i: int,
)
    requires
        0 <= i < processes_changed(old, current).len(),
    ensures
        processes_changed(old, current)[i].read > 0 || processes_changed(old, current)[i].write > 0,
        exists|k: int|
            0 <= k < current.len() && (#[trigger] current[k]).pid == processes_changed(
                old,
                current,
            )[i].pid && processes_changed(old, current)[i].read <= current[k].read_bytes
                && processes_changed(old, current)[i].write <= current[k].write_bytes,
    decreases current.len(),
{
    let rest = current.drop_last();
    let before = processes_changed(old, rest);
    let shown = processes_changed(old, current)[i];
    if i < before.len() {
        shown_processes_did_something(old, rest, i);
        let k = choose|k: int|
            0 <= k < rest.len() && (#[trigger] rest[k]).pid == before[i].pid && before[i].read
                <= rest[k].read_bytes && before[i].write <= rest[k].write_bytes;
        assert(current[k] == rest[k]);
        assert(current[k].pid == shown.pid);
    } else {
        assert(current[current.len() - 1].pid == shown.pid);
    }
}

/// No more is shown than there is room for, what is shown is in order, and everything is shown
/// where there is room for it.
pub proof fn the_first_are_shown<T, R: Ranking<T>>(all: Seq<T>, shown: Seq<T>)
    requires
        is_top::<T, R>(all, shown),
    ensures
        shown.len() <= SHOWN,
        is_ranked::<T, R>(shown),
        all.len() <= SHOWN ==> shown.to_multiset() == all.to_multiset(),
{
    let ordered = choose|ordered: Seq<T>|
        #![trigger is_sorted_from::<T, R>(all, ordered)]
        {
            &&& is_sorted_from::<T, R>(all, ordered)
            &&& ordered.to_multiset() == all.to_multiset()
            &&& shown == (if ordered.len() <= SHOWN {
                ordered
            } else {
                ordered.take(SHOWN as int)
            })
        };
    ordered.to_multiset_ensures();
    all.to_multiset_ensures();
    assert(ordered.len() == all.len());
    assert forall|i: int, j: int| 0 <= i < j < shown.len() implies !R::ranks_before(
        shown[j],
        shown[i],
    ) by {
        assert(!R::ranks_before(ordered[j], ordered[i]));
    }
}

/// A counter grows by the difference, and not at all where it was set back.
pub proof fn counters_grow_by_the_difference(old: u64, new: u64)
    ensures
        new >= old ==> growth(old, new) == new - old,
        new < old ==> growth(old, new) == 0,
{
}

/// A processor was busy for the time that it did not rest; at the first sample nothing is known.
pub proof fn processors_are_busy_while_they_do_not_rest(before: CpuSample, now: CpuSample)
    ensures
        before.idle <= now.idle && before.total <= now.total && now.idle - before.idle <= now.total
            - before.total ==> cpu_changed(Some(before), now).busy == (now.total - before.total) - (
        now.idle - before.idle),
        before.total <= now.total ==> cpu_changed(Some(before), now).total == now.total
            - before.total,
        cpu_changed(None, now) == (CpuChange { busy: 0, total: 0 }),
{
}

/// A device is found by its name, the last one where there are several.
pub proof fn devices_are_found_by_name(
    devices: Seq<(String, DeviceCounterSample)>,
    device: (String, DeviceCounterSample),
    name: Seq<char>,
)
    ensures
        device_position(Seq::empty(), name) is None,
        device.0@ == name ==> device_position(devices.push(device), name) == Some(
            devices.len() as int,
        ),
        device.0@ != name ==> device_position(devices.push(device), name) == device_position(
            devices,
            name,
        ),
{
    assert(devices.push(device).drop_last() =~= devices);
}

/// A device is shown exactly if it was there before, with what it has read and written since and how
/// long it was busy.
pub proof fn devices_are_compared_with_themselves(
    old: Seq<(String, DeviceCounterSample)>,
    current: Seq<(String, DeviceCounterSample)>,
    device: (String, DeviceCounterSample),
)
    ensures
        devices_changed(old, Seq::empty()) == Seq::<(Seq<char>, u64, u64, u64)>::empty(),
        device_position(old, device.0@) is None ==> devices_changed(old, current.push(device))
            == devices_changed(old, current),
        device_position(old, device.0@) matches Some(at) ==> devices_changed(
            old,
            current.push(device),
        ) == devices_changed(old, current).push(
            (
                device.0@,
                growth(old[at].1.read, device.1.read),
                growth(old[at].1.write, device.1.write),
                growth(old[at].1.busy_millis, device.1.busy_millis),
            ),
        ),
{
    assert(current.push(device).drop_last() =~= current);
}

/// A process is found by its number.
pub proof fn processes_are_found_by_number(
    processes: Seq<ProcessIoCounter>,
    process: ProcessIoCounter,
    pid: u32,
)
    ensures
        process_position(Seq::empty(), pid) is None,
        process.pid == pid ==> process_position(processes.push(process), pid) == Some(
            processes.len() as int,
        ),
        process.pid != pid ==> process_position(processes.push(process), pid) == process_position(
            processes,
            pid,
        ),
{
    assert(processes.push(process).drop_last() =~= processes);
}

/// A process is shown exactly if it was there before and has read or written something since.
pub proof fn processes_are_compared_with_themselves(
    old: Seq<ProcessIoCounter>,
    current: Seq<ProcessIoCounter>,
    process: ProcessIoCounter,
)
    ensures
        ({
            let before = processes_changed(old, current);
            let after = processes_changed(old, current.push(process));
            match process_position(old, process.pid) {
                None => after == before,
                Some(at) => {
                    let read = growth(old[at].read_bytes, process.read_bytes);
                    let write = growth(old[at].write_bytes, process.write_bytes);
                    if read + write > 0 {
                        after == before.push(
                            ProcessShown {
                                pid: process.pid,
                                name: process.name@,
                                command: process.command@,
                                container_id: option_text(process.container_id),
                                read,
                                write,
                            },
                        )
                    } else {
                        after == before
                    }
                },
            }
        }),
        processes_changed(old, Seq::empty()) == Seq::<ProcessShown>::empty(),
{
    assert(current.push(process).drop_last() =~= current);
}

/// Of devices the busiest comes first, then the one that moves most, then the first by name.
pub proof fn the_busiest_device_comes_first(left: RatedDevice, right: RatedDevice)
    ensures
        left.utilization_order > right.utilization_order ==> BusiestFirst::ranks_before(left, right),
        left.utilization_order == right.utilization_order && left.total_order > right.total_order
            ==> BusiestFirst::ranks_before(left, right),
        left.utilization_order == right.utilization_order && left.total_order == right.total_order
            && text_before(left.metric.name@, right.metric.name@) ==> BusiestFirst::ranks_before(
            left,
            right,
        ),
{
}

/// Of processes the one that moves most comes first, then the one that writes most, then the first
/// by name and by number.
pub proof fn the_most_active_process_comes_first(left: RatedProcess, right: RatedProcess)
    ensures
        left.total_order > right.total_order ==> MostActiveFirst::ranks_before(left, right),
        left.total_order == right.total_order && left.write_order > right.write_order
            ==> MostActiveFirst::ranks_before(left, right),
        left.total_order == right.total_order && left.write_order == right.write_order
            && text_before(left.metric.name@, right.metric.name@) ==> MostActiveFirst::ranks_before(
            left,
            right,
        ),
        left.total_order == right.total_order && left.write_order == right.write_order
            && left.metric.name@ == right.metric.name@ && left.metric.pid < right.metric.pid
            ==> MostActiveFirst::ranks_before(left, right),
{
    text_order_is_strict(left.metric.name@, right.metric.name@);
}

/// Twenty are shown where there are so many, and the first ones of all.
pub proof fn twenty_are_shown<T, R: Ranking<T>>(all: Seq<T>, shown: Seq<T>)
    requires
        is_top::<T, R>(all, shown),
    ensures
        all.len() >= 20 ==> shown.len() == 20,
        all.len() < 20 ==> shown.len() == all.len(),
{
    let ordered = choose|ordered: Seq<T>|
        #![trigger is_sorted_from::<T, R>(all, ordered)]
        {
            &&& is_sorted_from::<T, R>(all, ordered)
            &&& ordered.to_multiset() == all.to_multiset()
            &&& shown == (if ordered.len() <= SHOWN {
                ordered
            } else {
                ordered.take(SHOWN as int)
            })
        };
    ordered.to_multiset_ensures();
    all.to_multiset_ensures();
}

/// Processes that could not be read are told of, whether or not others are shown.
pub proof fn unreadable_processes_are_counted(shown: nat, denied: nat)
    ensures
        denied > 0 ==> crate::pieces::holds(process_detail(shown, denied), decimal(denied)),
        process_detail(0, 0) == "暂无进程读写"@,
        shown > 0 ==> process_detail(shown, 0) == "按总读写速率排序"@,
{
    if denied > 0 {
        let start = if shown == 0 {
            "未采集到可读进程 IO，已跳过 "@
        } else {
            "按总读写速率排序，已跳过 "@
        };
        let whole = process_detail(shown, denied);
        let at = start.len() as int;
        assert(whole =~= start + decimal(denied) + " 个无权限进程"@);
        assert(whole.subrange(at, at + decimal(denied).len()) =~= decimal(denied));
        assert(crate::pieces::stands_at(whole, decimal(denied), at));
    }
}

/// What changed between two readings: by how much the counters have grown, device by device, and how
/// much time has passed. At the first reading nothing has changed, and no time is known.
pub proof fn readings_are_compared_with_the_last(
    before: CounterSample,
    new: CounterSample,
    change: CounterChange,
)
    ensures
        is_change(None, new, change) ==> change.read == 0 && change.write == 0
            && change.devices@.len() == 0 && change.elapsed_nanos is None,
        is_change(Some(before), new, change) && before.read <= new.read && before.write <= new.write
            && before.sampled_at_nanos <= new.sampled_at_nanos ==> change.read == new.read
            - before.read && change.write == new.write - before.write && change.elapsed_nanos
            == Some((new.sampled_at_nanos - before.sampled_at_nanos) as u64),
        is_change(Some(before), new, change) ==> change_views(change.devices@) == devices_changed(
            before.devices@,
            new.devices@,
        ),
{
}

} // verus!
