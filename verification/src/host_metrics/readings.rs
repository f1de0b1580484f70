//! Readings of the files in which the kernel tells what the host is doing.

use vstd::prelude::*;
use vstd::utf8::{decode_utf8, valid_utf8};

use crate::bytes::{extend_between, shown_text, text_from_utf8, text_from_utf8_lossy};
use crate::decimal::{decimal, natural_text, parse_natural, parsed};
use crate::pieces::{
    after_prefix, contains, cut_first, first_chars, holds, join, joined, lines, option_text,
    pieces, split, split_first, split_lines, split_words, starts_with, strip_prefix, words,
};
use crate::text::{
    blank, is_blank, lemma_texts_push, lowercase, lowered, same_text, texts, trim, trimmed,
    CharClass,
};

verus! {

/// A number, or the largest that fits where it does not fit.
pub open spec fn at_most(n: int) -> int {
    if n > u64::MAX {
        u64::MAX as int
    } else {
        n
    }
}

fn plus(left: u64, right: u64) -> (sum: u64)
    ensures
        sum == at_most(left + right),
{
    if right > u64::MAX - left {
        u64::MAX
    } else {
        left + right
    }
}

fn times(left: u64, right: u64) -> (product: u64)
    requires
        right > 0,
    ensures
        product == at_most(left * right),
{
    let limit: u64 = u64::MAX / right;
    proof {
        vstd::arithmetic::div_mod::lemma_fundamental_div_mod(u64::MAX as int, right as int);
    }
    if left > limit {
        assert(left * right > u64::MAX) by (nonlinear_arith)
            requires
                left >= limit + 1,
                right > 0,
                u64::MAX == right * limit + (u64::MAX as int) % (right as int),
                (u64::MAX as int) % (right as int) < right,
        ;
        u64::MAX
    } else {
        assert(0 <= left * right <= u64::MAX) by (nonlinear_arith)
            requires
                0 <= left <= limit,
                right > 0,
                u64::MAX == right * limit + (u64::MAX as int) % (right as int),
                0 <= (u64::MAX as int) % (right as int),
        ;
        left * right
    }
}

/// The number that a word writes, as far as it writes one that fits.
pub open spec fn number(word: Seq<char>) -> Option<nat> {
    parsed(word, u64::MAX as nat)
}

/// The number that a word writes, or nothing.
pub open spec fn number_or_zero(word: Seq<char>) -> int {
    match number(word) {
        Some(n) => n as int,
        None => 0,
    }
}

fn read_number(word: &str) -> (value: u64)
    ensures
        value == number_or_zero(word@),
{
    match parse_natural(word, u64::MAX) {
        Some(value) => value,
        None => 0,
    }
}

pub fn unsupported_detail() -> (text: String)
    ensures
        text@ == "当前系统不支持采集"@,
{
    "当前系统不支持采集".to_owned()
}

// ---------------------------------------------------------------------------
// Processors
// ---------------------------------------------------------------------------

/// How long the processors were idle, and how long in all.
#[derive(Debug, Clone, Copy, PartialEq, Eq, Structural)]
pub struct CpuSample {
    pub idle: u64,
    pub total: u64,
}

/// The numbers among words, in order.
pub open spec fn numbers_among(all: Seq<Seq<char>>) -> Seq<int>
    decreases all.len(),
{
    if all.len() == 0 {
        Seq::empty()
    } else {
        match number(all.last()) {
            Some(n) => numbers_among(all.drop_last()).push(n as int),
            None => numbers_among(all.drop_last()),
        }
    }
}

pub open spec fn sum_of(values: Seq<int>) -> int
    decreases values.len(),
{
    if values.len() == 0 {
        0
    } else {
        sum_of(values.drop_last()) + values.last()
    }
}

/// The reading of the first line: what the processors spent idle and waiting, and the sum of all
/// that they spent.
pub open spec fn cpu_reading(content: Seq<char>) -> Option<(int, int)> {
    let all = lines(content);
    if all.len() == 0 {
        None
    } else {
        let parts = words(all[0]);
        if parts.len() == 0 || parts[0] != "cpu"@ {
            None
        } else {
            let values = numbers_among(parts.drop_first());
            if values.len() < 4 {
                None
            } else {
                Some(
                    (
                        at_most(
                            values[3] + (if values.len() > 4 {
                                values[4]
                            } else {
                                0
                            }),
                        ),
                        at_most(sum_of(values)),
                    ),
                )
            }
        }
    }
}

/// The values of numbers.
spec fn values_of(numbers: Seq<u64>) -> Seq<int> {
    numbers.map_values(|n: u64| n as int)
}

/// The reading as a mathematical value.
pub open spec fn cpu_view(sample: Option<CpuSample>) -> Option<(int, int)> {
    match sample {
        Some(sample) => Some((sample.idle as int, sample.total as int)),
        None => None,
    }
}

/// Reads the times of the processors.
pub fn parse_cpu_sample(content: &str) -> (sample: Option<CpuSample>)
    ensures
        cpu_view(sample) == cpu_reading(content@),
{
    let all = split_lines(content);
    assert(texts(all@).len() == all@.len());
    if all.len() == 0 {
        return None;
    }
    assert(texts(all@)[0] == all@[0]@);
    let parts = split_words(all[0].as_str());
    let ghost model = texts(parts@);
    if parts.len() == 0 {
        return None;
    }
    assert(model[0] == parts@[0]@);
    if !same_text(parts[0].as_str(), "cpu") {
        return None;
    }
    let ghost rest = model.drop_first();
    let mut values: Vec<u64> = Vec::new();
    let mut i: usize = 1;
    assert(values_of(values@) =~= numbers_among(rest.take(0)));
    while i < parts.len()
        invariant
            1 <= i <= parts@.len(),
            model == texts(parts@),
            rest == model.drop_first(),
            values_of(values@) == numbers_among(rest.take(i - 1)),
        decreases parts@.len() - i,
    {
        assert(rest.take(i - 1 + 1).drop_last() =~= rest.take(i - 1));
        assert(rest[i - 1] == parts@[i as int]@);
        let ghost before = values_of(values@);
        match parse_natural(parts[i].as_str(), u64::MAX) {
            Some(value) => {
                values.push(value);
                assert(values_of(values@) =~= before.push(value as int));
            },
            None => {},
        }
        i = i + 1;
    }
    assert(rest.take(i - 1) =~= rest);
    let ghost numbers = values_of(values@);
    if values.len() < 4 {
        return None;
    }
    let waiting: u64 = if values.len() > 4 {
        values[4]
    } else {
        0
    };
    let idle: u64 = plus(values[3], waiting);
    let mut total: u64 = 0;
    let mut k: usize = 0;
    assert(numbers.take(0) =~= Seq::empty());
    while k < values.len()
        invariant
            k <= values@.len(),
            numbers == values_of(values@),
            total == at_most(sum_of(numbers.take(k as int))),
            sum_of(numbers.take(k as int)) >= 0,
        decreases values@.len() - k,
    {
        assert(numbers.take(k + 1).drop_last() =~= numbers.take(k as int));
        total = plus(total, values[k]);
        k = k + 1;
    }
    assert(numbers.take(k as int) =~= numbers);
    Some(CpuSample { idle, total })
}

/// What is said of the processors: how many there are, where that is known.
pub fn cpu_detail(cores: Option<u64>) -> (text: String)
    ensures
        text@ == (match cores {
            Some(count) => decimal(count as nat) + " 核心"@,
            None => "CPU 核心数未知"@,
        }),
{
    match cores {
        Some(count) => natural_text(count).concat(" 核心"),
        None => "CPU 核心数未知".to_owned(),
    }
}

// ---------------------------------------------------------------------------
// Memory
// ---------------------------------------------------------------------------

/// A value in kibibytes behind its key, in bytes.
pub open spec fn kib_reading(line: Seq<char>, key: Seq<char>) -> Option<int> {
    match after_prefix(line, key) {
        None => None,
        Some(rest) => {
            let parts = words(trimmed(rest));
            if parts.len() == 0 {
                None
            } else {
                match number(parts[0]) {
                    Some(kib) => Some(at_most((kib * 1024) as int)),
                    None => None,
                }
            }
        },
    }
}

pub open spec fn number_view(value: Option<u64>) -> Option<int> {
    match value {
        Some(value) => Some(value as int),
        None => None,
    }
}

pub fn parse_meminfo_kib(line: &str, key: &str) -> (value: Option<u64>)
    ensures
        number_view(value) == kib_reading(line@, key@),
{
    match strip_prefix(line, key) {
        None => None,
        Some(rest) => {
            let value = trim(rest.as_str());
            let parts = split_words(value.as_str());
            assert(texts(parts@).len() == parts@.len());
            if parts.len() == 0 {
                return None;
            }
            assert(texts(parts@)[0] == parts@[0]@);
            match parse_natural(parts[0].as_str(), u64::MAX) {
                Some(kib) => Some(times(kib, 1024)),
                None => None,
            }
        },
    }
}

/// The last value behind a key.
pub open spec fn last_kib(all: Seq<Seq<char>>, key: Seq<char>) -> Option<int>
    decreases all.len(),
{
    if all.len() == 0 {
        None
    } else {
        match kib_reading(all.last(), key) {
            Some(value) => Some(value),
            None => last_kib(all.drop_last(), key),
        }
    }
}

/// The memory that there is, and that is available, in bytes.
pub fn parse_memory_sample(content: &str) -> (sample: Option<(u64, u64)>)
    ensures
        match sample {
            Some(sample) => {
                &&& last_kib(lines(content@), "MemTotal:"@) == Some(sample.0 as int)
                &&& last_kib(lines(content@), "MemAvailable:"@) == Some(sample.1 as int)
            },
            None => last_kib(lines(content@), "MemTotal:"@) is None || last_kib(
                lines(content@),
                "MemAvailable:"@,
            ) is None,
        },
{
    let all = split_lines(content);
    let ghost model = texts(all@);
    let mut total: Option<u64> = None;
    let mut available: Option<u64> = None;
    let mut i: usize = 0;
    assert(model.take(0) =~= Seq::empty());
    while i < all.len()
        invariant
            i <= all@.len(),
            model == texts(all@),
            number_view(total) == last_kib(model.take(i as int), "MemTotal:"@),
            number_view(available) == last_kib(model.take(i as int), "MemAvailable:"@),
        decreases all@.len() - i,
    {
        assert(model.take(i + 1).drop_last() =~= model.take(i as int));
        assert(model[i as int] == all@[i as int]@);
        match parse_meminfo_kib(all[i].as_str(), "MemTotal:") {
            Some(value) => {
                total = Some(value);
            },
            None => {},
        }
        match parse_meminfo_kib(all[i].as_str(), "MemAvailable:") {
            Some(value) => {
                available = Some(value);
            },
            None => {},
        }
        i = i + 1;
    }
    assert(model.take(i as int) =~= model);
    match (total, available) {
        (Some(total), Some(available)) => Some((total, available)),
        _ => None,
    }
}

// ---------------------------------------------------------------------------
// Disk space
// ---------------------------------------------------------------------------

#[derive(Debug, Clone, PartialEq, Eq)]
pub struct DiskUsageSample {
    pub total: u64,
    pub used: u64,
    pub mount_point: String,
}

pub open spec fn usage_view(sample: Option<DiskUsageSample>) -> Option<(int, int, Seq<char>)> {
    match sample {
        Some(sample) => Some((sample.total as int, sample.used as int, sample.mount_point@)),
        None => None,
    }
}

/// The line of a file system: where it is mounted, its size and how much of it is used.
pub open spec fn usage_reading(line: Seq<char>) -> Option<(int, int, Seq<char>)> {
    let parts = words(line);
    if parts.len() < 3 {
        None
    } else {
        match (number(parts[parts.len() - 2]), number(parts[parts.len() - 1])) {
            (Some(total), Some(used)) => Some(
                (total as int, used as int, joined(parts.take(parts.len() - 2), " "@)),
            ),
            _ => None,
        }
    }
}

pub fn parse_df_line(line: &str) -> (sample: Option<DiskUsageSample>)
    ensures
        usage_view(sample) == usage_reading(line@),
{
    let mut parts = split_words(line);
    let ghost model = texts(parts@);
    let count: usize = parts.len();
    if count < 3 {
        return None;
    }
    assert(model[count - 1] == parts@[count - 1]@);
    assert(model[count - 2] == parts@[count - 2]@);
    let used = match parse_natural(parts[count - 1].as_str(), u64::MAX) {
        Some(used) => used,
        None => return None,
    };
    let total = match parse_natural(parts[count - 2].as_str(), u64::MAX) {
        Some(total) => total,
        None => return None,
    };
    parts.truncate(count - 2);
    assert(texts(parts@) =~= model.take(count - 2));
    let mount_point = join(&parts, " ");
    Some(DiskUsageSample { total, used, mount_point })
}

/// A line that is neither blank nor the heading.
pub open spec fn is_file_system(line: Seq<char>) -> bool {
    !is_blank(line) && !"Mounted"@.is_prefix_of(line)
}

/// The reading of the first file system that a listing shows.
pub open spec fn first_usage(all: Seq<Seq<char>>) -> Option<(int, int, Seq<char>)>
    decreases all.len(),
{
    if all.len() == 0 {
        None
    } else if is_file_system(all[0]) {
        usage_reading(all[0])
    } else {
        first_usage(all.drop_first())
    }
}

/// Reads the output of a listing of file systems.
pub fn parse_disk_usage(stdout: Vec<u8>) -> (sample: Option<DiskUsageSample>)
    ensures
        usage_view(sample) == (if valid_utf8(stdout@) {
            first_usage(lines(decode_utf8(stdout@)))
        } else {
            None
        }),
{
    let text = match text_from_utf8(stdout) {
        Some(text) => text,
        None => return None,
    };
    let all = split_lines(text.as_str());
    let ghost model = texts(all@);
    let mut i: usize = 0;
    assert(model.skip(0) =~= model);
    while i < all.len()
        invariant
            i <= all@.len(),
            model == texts(all@),
            valid_utf8(stdout@),
            model == lines(decode_utf8(stdout@)),
            first_usage(model.skip(i as int)) == first_usage(model),
        decreases all@.len() - i,
    {
        assert(model.skip(i as int).drop_first() =~= model.skip(i + 1));
        assert(model.skip(i as int)[0] == all@[i as int]@);
        if !blank(all[i].as_str()) && !starts_with(all[i].as_str(), "Mounted") {
            return parse_df_line(all[i].as_str());
        }
        i = i + 1;
    }
    None
}

// ---------------------------------------------------------------------------
// Disks and network
// ---------------------------------------------------------------------------

#[derive(Debug, Clone, Copy, PartialEq, Eq, Structural)]
pub struct DeviceCounterSample {
    pub read: u64,
    pub write: u64,
    pub busy_millis: u64,
}

/// What was read and written so far, in all and by device, at a time in nanoseconds.
#[derive(Debug, Clone)]
pub struct CounterSample {
    pub read: u64,
    pub write: u64,
    pub devices: Vec<(String, DeviceCounterSample)>,
    pub sampled_at_nanos: u64,
}

/// No name occurs twice.
pub open spec fn names_are_distinct(devices: Seq<(String, DeviceCounterSample)>) -> bool {
    forall|i: int, j: int| 0 <= i < j < devices.len() ==> devices[i].0@ != devices[j].0@
}

impl CounterSample {
    pub open spec fn wf(self) -> bool {
        names_are_distinct(self.devices@)
    }
}

pub open spec fn ignored_device(name: Seq<char>) -> bool {
    "loop"@.is_prefix_of(name) || "ram"@.is_prefix_of(name) || "sr"@.is_prefix_of(name)
        || "fd"@.is_prefix_of(name)
}

pub fn is_ignored_block_device(name: &str) -> (ignored: bool)
    ensures
        ignored == ignored_device(name@),
{
    starts_with(name, "loop") || starts_with(name, "ram") || starts_with(name, "sr")
        || starts_with(name, "fd")
}

/// The reading of one device: its name and what it has counted. Sectors are of 512 bytes.
pub open spec fn device_reading(line: Seq<char>, block_devices: Seq<Seq<char>>) -> Option<
    (Seq<char>, (int, int, int)),
> {
    let parts = words(line);
    if parts.len() < 14 || !block_devices.contains(parts[2]) || ignored_device(parts[2]) {
        None
    } else {
        Some(
            (
                parts[2],
                (
                    at_most(number_or_zero(parts[5]) * 512),
                    at_most(number_or_zero(parts[9]) * 512),
                    number_or_zero(parts[12]),
                ),
            ),
        )
    }
}

pub open spec fn device_view(device: DeviceCounterSample) -> (int, int, int) {
    (device.read as int, device.write as int, device.busy_millis as int)
}

fn read_device(line: &str, block_devices: &Vec<String>) -> (device: Option<
    (String, DeviceCounterSample),
>)
    ensures
        match device {
            Some(device) => device_reading(line@, texts(block_devices@)) == Some(
                (device.0@, device_view(device.1)),
            ),
            None => device_reading(line@, texts(block_devices@)) is None,
        },
{
    let parts = split_words(line);
    let ghost model = texts(parts@);
    if parts.len() < 14 {
        return None;
    }
    assert(forall|k: int| 0 <= k < parts@.len() ==> model[k] == #[trigger] parts@[k]@);
    if !contains_text(block_devices, parts[2].as_str()) || is_ignored_block_device(
        parts[2].as_str(),
    ) {
        return None;
    }
    let read: u64 = times(read_number(parts[5].as_str()), 512);
    let write: u64 = times(read_number(parts[9].as_str()), 512);
    let busy_millis: u64 = read_number(parts[12].as_str());
    Some((parts[2].clone(), DeviceCounterSample { read, write, busy_millis }))
}

fn contains_text(items: &Vec<String>, text: &str) -> (found: bool)
    ensures
        found == texts(items@).contains(text@),
{
    let ghost model = texts(items@);
    let mut i: usize = 0;
    while i < items.len()
        invariant
            i <= items@.len(),
            model == texts(items@),
            forall|k: int| 0 <= k < i ==> #[trigger] model[k] != text@,
        decreases items@.len() - i,
    {
        assert(model[i as int] == items@[i as int]@);
        if same_text(items[i].as_str(), text) {
            assert(model.contains(text@));
            return true;
        }
        i = i + 1;
    }
    false
}

/// What the lines of a reading add up to, and the last reading of each device.
pub struct DiskTotals {
    pub read: int,
    pub write: int,
    pub devices: Map<Seq<char>, (int, int, int)>,
}

pub open spec fn disk_totals(all: Seq<Seq<char>>, block_devices: Seq<Seq<char>>) -> DiskTotals
    decreases all.len(),
{
    if all.len() == 0 {
        DiskTotals { read: 0, write: 0, devices: Map::empty() }
    } else {
        let before = disk_totals(all.drop_last(), block_devices);
        match device_reading(all.last(), block_devices) {
            None => before,
            Some((name, counts)) => DiskTotals {
                read: at_most(before.read + counts.0),
                write: at_most(before.write + counts.1),
                devices: before.devices.insert(name, counts),
            },
        }
    }
}

/// What devices have counted, by their names.
pub open spec fn counts_of(devices: Seq<(String, DeviceCounterSample)>) -> Map<
    Seq<char>,
    (int, int, int),
>
    decreases devices.len(),
{
    if devices.len() == 0 {
        Map::empty()
    } else {
        counts_of(devices.drop_last()).insert(devices.last().0@, device_view(devices.last().1))
    }
}

proof fn lemma_counts(devices: Seq<(String, DeviceCounterSample)>)
    requires
        names_are_distinct(devices),
    ensures
        forall|name: Seq<char>| #[trigger]
            counts_of(devices).dom().contains(name) <==> exists|i: int|
                0 <= i < devices.len() && (#[trigger] devices[i]).0@ == name,
        forall|i: int|
            0 <= i < devices.len() ==> counts_of(devices)[(#[trigger] devices[i]).0@]
                == device_view(devices[i].1),
    decreases devices.len(),
{
    if devices.len() > 0 {
        let rest = devices.drop_last();
        assert(names_are_distinct(rest)) by {
            assert forall|i: int, j: int| 0 <= i < j < rest.len() implies rest[i].0@
                != rest[j].0@ by {
                assert(devices[i].0@ != devices[j].0@);
            }
        }
        lemma_counts(rest);
        assert forall|name: Seq<char>| #[trigger]
            counts_of(devices).dom().contains(name) <==> exists|i: int|
                0 <= i < devices.len() && (#[trigger] devices[i]).0@ == name by {
            if counts_of(devices).dom().contains(name) {
                if name == devices.last().0@ {
                    assert(devices[devices.len() - 1].0@ == name);
                } else {
                    assert(counts_of(rest).dom().contains(name));
                    let i = choose|i: int|
                        0 <= i < rest.len() && (#[trigger] rest[i]).0@ == name;
                    assert(devices[i].0@ == name);
                }
            }
            if exists|i: int| 0 <= i < devices.len() && (#[trigger] devices[i]).0@ == name {
                let i = choose|i: int| 0 <= i < devices.len() && (#[trigger] devices[i]).0@ == name;
                if i < rest.len() {
                    assert(rest[i].0@ == name);
                    assert(counts_of(rest).dom().contains(name));
                }
            }
        }
        assert forall|i: int| 0 <= i < devices.len() implies counts_of(devices)[(
        #[trigger] devices[i]).0@] == device_view(devices[i].1) by {
            if i < rest.len() {
                assert(rest[i] == devices[i]);
                assert(devices[i].0@ != devices[devices.len() - 1].0@);
            }
        }
    }
}

/// The position of the device of the name, or the number of devices.
fn device_at(devices: &Vec<(String, DeviceCounterSample)>, name: &str) -> (at: usize)
    ensures
        at <= devices@.len(),
        at < devices@.len() ==> devices@[at as int].0@ == name@,
        at == devices@.len() ==> forall|i: int|
            0 <= i < devices@.len() ==> (#[trigger] devices@[i]).0@ != name@,
{
    let mut i: usize = 0;
    while i < devices.len()
        invariant
            i <= devices@.len(),
            forall|k: int| 0 <= k < i ==> (#[trigger] devices@[k]).0@ != name@,
        decreases devices@.len() - i,
    {
        if same_text(devices[i].0.as_str(), name) {
            return i;
        }
        i = i + 1;
    }
    i
}

/// Keeps the reading of a device, in place of an earlier one.
fn put_device(
    devices: &mut Vec<(String, DeviceCounterSample)>,
    name: String,
    counts: DeviceCounterSample,
)
    requires
        names_are_distinct(old(devices)@),
    ensures
        names_are_distinct(final(devices)@),
        counts_of(final(devices)@) == counts_of(old(devices)@).insert(name@, device_view(counts)),
{
    let ghost before = devices@;
    let at = device_at(devices, name.as_str());
    if at < devices.len() {
        devices.set(at, (name, counts));
        let ghost after = devices@;
        proof {
            assert forall|i: int, j: int| 0 <= i < j < after.len() implies after[i].0@
                != after[j].0@ by {
                assert(before[i].0@ != before[j].0@);
            }
            lemma_counts(before);
            lemma_counts(after);
            let expected = counts_of(before).insert(name@, device_view(counts));
            assert forall|n: Seq<char>| counts_of(after).dom().contains(n) == #[trigger]
            expected.dom().contains(n) by {
                if counts_of(after).dom().contains(n) {
                    let i = choose|i: int| 0 <= i < after.len() && (#[trigger] after[i]).0@ == n;
                    assert(before[i].0@ == n);
                    assert(counts_of(before).dom().contains(n));
                }
                if expected.dom().contains(n) {
                    if n == name@ {
                        assert(after[at as int].0@ == n);
                    } else {
                        let i = choose|i: int|
                            0 <= i < before.len() && (#[trigger] before[i]).0@ == n;
                        assert(after[i].0@ == n);
                    }
                }
            }
            assert forall|n: Seq<char>| #[trigger]
                counts_of(after).dom().contains(n) implies counts_of(after)[n] == expected[n] by {
                let i = choose|i: int| 0 <= i < after.len() && (#[trigger] after[i]).0@ == n;
                assert(counts_of(after)[after[i].0@] == device_view(after[i].1));
                if i != at {
                    assert(before[i] == after[i]);
                    assert(before[i].0@ != name@) by {
                        if i < at {
                            assert(before[i].0@ != before[at as int].0@);
                        } else {
                            assert(before[at as int].0@ != before[i].0@);
                        }
                    }
                    assert(counts_of(before)[before[i].0@] == device_view(before[i].1));
                }
            }
            assert(counts_of(after) =~= expected);
        }
    } else {
        devices.push((name, counts));
        assert(devices@.drop_last() =~= before);
        assert forall|i: int, j: int| 0 <= i < j < devices@.len() implies devices@[i].0@
            != devices@[j].0@ by {
            if j < before.len() {
                assert(before[i].0@ != before[j].0@);
            } else {
                assert(before[i].0@ != name@);
            }
        }
    }
}

/// Reads what the disks have counted, of the devices that are block devices of the host.
pub fn parse_disk_io_sample(
    content: &str,
    block_devices: &Vec<String>,
    sampled_at_nanos: u64,
) -> (sample: CounterSample)
    ensures
        sample.wf(),
        sample.sampled_at_nanos == sampled_at_nanos,
        ({
            let totals = disk_totals(lines(content@), texts(block_devices@));
            &&& sample.read == totals.read
            &&& sample.write == totals.write
            &&& counts_of(sample.devices@) == totals.devices
        }),
{
    let all = split_lines(content);
    let ghost model = texts(all@);
    let ghost known = texts(block_devices@);
    let mut read: u64 = 0;
    let mut write: u64 = 0;
    let mut devices: Vec<(String, DeviceCounterSample)> = Vec::new();
    let mut i: usize = 0;
    assert(model.take(0) =~= Seq::empty());
    assert(counts_of(devices@) =~= Map::empty());
    while i < all.len()
        invariant
            i <= all@.len(),
            model == texts(all@),
            known == texts(block_devices@),
            names_are_distinct(devices@),
            read == disk_totals(model.take(i as int), known).read,
            write == disk_totals(model.take(i as int), known).write,
            counts_of(devices@) == disk_totals(model.take(i as int), known).devices,
        decreases all@.len() - i,
    {
        assert(model.take(i + 1).drop_last() =~= model.take(i as int));
        assert(model[i as int] == all@[i as int]@);
        match read_device(all[i].as_str(), block_devices) {
            Some(device) => {
                read = plus(read, device.1.read);
                write = plus(write, device.1.write);
                put_device(&mut devices, device.0, device.1);
            },
            None => {},
        }
        i = i + 1;
    }
    assert(model.take(i as int) =~= model);
    CounterSample { read, write, devices, sampled_at_nanos }
}

pub open spec fn loopback(name: Seq<char>) -> bool {
    lowered(name) == "lo"@ || holds(lowered(name), "loopback"@)
}

pub fn is_loopback_interface(name: &str) -> (found: bool)
    ensures
        found == loopback(name@),
{
    let lower = lowercase(name);
    same_text(lower.as_str(), "lo") || contains(lower.as_str(), "loopback")
}

/// What an interface has received and sent, where the line is one of an interface that counts.
pub open spec fn interface_reading(line: Seq<char>) -> Option<(int, int)> {
    match cut_first(line, CharClass::Colon) {
        None => None,
        Some((name, stats)) => {
            let values = words(stats);
            if loopback(trimmed(name)) || values.len() < 16 {
                None
            } else {
                Some((number_or_zero(values[0]), number_or_zero(values[8])))
            }
        },
    }
}

/// What all interfaces have received and sent.
pub open spec fn network_totals(all: Seq<Seq<char>>) -> (int, int)
    decreases all.len(),
{
    if all.len() == 0 {
        (0, 0)
    } else {
        let before = network_totals(all.drop_last());
        match interface_reading(all.last()) {
            None => before,
            Some(counts) => (at_most(before.0 + counts.0), at_most(before.1 + counts.1)),
        }
    }
}

fn read_interface(line: &str) -> (counts: Option<(u64, u64)>)
    ensures
        match counts {
            Some(counts) => interface_reading(line@) == Some((counts.0 as int, counts.1 as int)),
            None => interface_reading(line@) is None,
        },
{
    match split_first(line, CharClass::Colon) {
        None => None,
        Some(parts) => {
            let name = trim(parts.0.as_str());
            if is_loopback_interface(name.as_str()) {
                return None;
            }
            let values = split_words(parts.1.as_str());
            let ghost model = texts(values@);
            if values.len() < 16 {
                return None;
            }
            assert(forall|k: int| 0 <= k < values@.len() ==> model[k] == #[trigger] values@[k]@);
            Some((read_number(values[0].as_str()), read_number(values[8].as_str())))
        },
    }
}

/// The lines below the two of the heading.
pub open spec fn below_heading(all: Seq<Seq<char>>) -> Seq<Seq<char>> {
    if all.len() < 2 {
        Seq::empty()
    } else {
        all.skip(2)
    }
}

/// Reads what the network interfaces have counted.
pub fn parse_network_sample(content: &str, sampled_at_nanos: u64) -> (sample: CounterSample)
    ensures
        sample.wf(),
        sample.sampled_at_nanos == sampled_at_nanos,
        sample.devices@.len() == 0,
        (sample.read as int, sample.write as int) == network_totals(
            below_heading(lines(content@)),
        ),
{
    let all = split_lines(content);
    let ghost model = texts(all@);
    let ghost rest = below_heading(model);
    let mut read: u64 = 0;
    let mut write: u64 = 0;
    let mut i: usize = 2;
    assert(rest.take(0) =~= Seq::empty());
    while i < all.len()
        invariant
            2 <= i,
            i <= all@.len() || (i == 2 && rest.len() == 0),
            model == texts(all@),
            rest == below_heading(model),
            (read as int, write as int) == network_totals(rest.take(i - 2)),
        decreases all@.len() - i,
    {
        assert(rest.take(i - 2 + 1).drop_last() =~= rest.take(i - 2));
        assert(rest[i - 2] == all@[i as int]@);
        match read_interface(all[i].as_str()) {
            Some(counts) => {
                read = plus(read, counts.0);
                write = plus(write, counts.1);
            },
            None => {},
        }
        i = i + 1;
    }
    assert(rest.take(i - 2) =~= rest);
    CounterSample { read, write, devices: Vec::new(), sampled_at_nanos }
}

// ---------------------------------------------------------------------------
// Processes
// ---------------------------------------------------------------------------

#[derive(Debug, Clone)]
pub struct ProcessIoCounter {
    pub pid: u32,
    pub name: String,
    pub command: String,
    pub container_id: Option<String>,
    pub read_bytes: u64,
    pub write_bytes: u64,
}

/// What the processes have read and written, at a time in nanoseconds.
#[derive(Debug, Clone)]
pub struct ProcessIoSample {
    pub processes: Vec<ProcessIoCounter>,
    pub sampled_at_nanos: u64,
}

/// A reading of the processes, and how many could not be read for want of permission.
#[derive(Debug, Clone)]
pub struct ProcessIoRead {
    pub sample: ProcessIoSample,
    pub permission_denied_count: usize,
}

/// The process that a directory stands for, where it stands for one.
pub fn process_id(directory: &str) -> (pid: Option<u32>)
    ensures
        match pid {
            Some(pid) => parsed(directory@, u32::MAX as nat) == Some(pid as nat),
            None => parsed(directory@, u32::MAX as nat) is None,
        },
{
    match parse_natural(directory, u32::MAX as u64) {
        Some(pid) => Some(pid as u32),
        None => None,
    }
}

/// A value behind its key.
pub open spec fn io_reading(line: Seq<char>, key: Seq<char>) -> Option<int> {
    match after_prefix(line, key) {
        None => None,
        Some(rest) => match number(trimmed(rest)) {
            Some(value) => Some(value as int),
            None => None,
        },
    }
}

fn parse_proc_io_value(line: &str, key: &str) -> (value: Option<u64>)
    ensures
        number_view(value) == io_reading(line@, key@),
{
    match strip_prefix(line, key) {
        None => None,
        Some(rest) => parse_natural(trim(rest.as_str()).as_str(), u64::MAX),
    }
}

/// The last value behind a key.
pub open spec fn last_io(all: Seq<Seq<char>>, key: Seq<char>) -> Option<int>
    decreases all.len(),
{
    if all.len() == 0 {
        None
    } else {
        match io_reading(all.last(), key) {
            Some(value) => Some(value),
            None => last_io(all.drop_last(), key),
        }
    }
}

/// What a process has read and written.
pub fn parse_process_io_bytes(content: &str) -> (counts: Option<(u64, u64)>)
    ensures
        match counts {
            Some(counts) => {
                &&& last_io(lines(content@), "read_bytes:"@) == Some(counts.0 as int)
                &&& last_io(lines(content@), "write_bytes:"@) == Some(counts.1 as int)
            },
            None => last_io(lines(content@), "read_bytes:"@) is None || last_io(
                lines(content@),
                "write_bytes:"@,
            ) is None,
        },
{
    let all = split_lines(content);
    let ghost model = texts(all@);
    let mut read: Option<u64> = None;
    let mut written: Option<u64> = None;
    let mut i: usize = 0;
    assert(model.take(0) =~= Seq::empty());
    while i < all.len()
        invariant
            i <= all@.len(),
            model == texts(all@),
            number_view(read) == last_io(model.take(i as int), "read_bytes:"@),
            number_view(written) == last_io(model.take(i as int), "write_bytes:"@),
        decreases all@.len() - i,
    {
        assert(model.take(i + 1).drop_last() =~= model.take(i as int));
        assert(model[i as int] == all@[i as int]@);
        match parse_proc_io_value(all[i].as_str(), "read_bytes:") {
            Some(value) => {
                read = Some(value);
            },
            None => {},
        }
        match parse_proc_io_value(all[i].as_str(), "write_bytes:") {
            Some(value) => {
                written = Some(value);
            },
            None => {},
        }
        i = i + 1;
    }
    assert(model.take(i as int) =~= model);
    match (read, written) {
        (Some(read), Some(written)) => Some((read, written)),
        _ => None,
    }
}

/// At most the given number of characters, and dots where something is left out.
pub open spec fn shortened(s: Seq<char>, limit: int) -> Seq<char> {
    if s.len() <= limit {
        s
    } else {
        s.take(limit) + "..."@
    }
}

pub fn truncate_chars(value: &str, max_chars: usize) -> (text: String)
    ensures
        text@ == shortened(value@, max_chars as int),
{
    let kept = first_chars(value, max_chars);
    if value.unicode_len() > max_chars {
        kept.concat("...")
    } else {
        kept
    }
}

/// The name of a process, where it has one.
pub open spec fn name_reading(content: Seq<char>) -> Option<Seq<char>> {
    if is_blank(content) {
        None
    } else {
        Some(shortened(trimmed(content), 80))
    }
}

pub fn process_name(content: &str) -> (name: Option<String>)
    ensures
        option_text(name) == name_reading(content@),
{
    let value = trim(content);
    if value.as_str().is_empty() {
        None
    } else {
        Some(truncate_chars(value.as_str(), 80))
    }
}

/// The position of the first zero, or the number of bytes.
pub open spec fn first_zero(bytes: Seq<u8>) -> int
    decreases bytes.len(),
{
    if bytes.len() == 0 || bytes[0] == 0 {
        0
    } else {
        first_zero(bytes.drop_first()) + 1
    }
}

proof fn lemma_first_zero(bytes: Seq<u8>)
    ensures
        0 <= first_zero(bytes) <= bytes.len(),
    decreases bytes.len(),
{
    if bytes.len() > 0 && bytes[0] != 0 {
        lemma_first_zero(bytes.drop_first());
    }
}

/// The arguments between zeros that are not empty, as texts.
pub open spec fn arguments(bytes: Seq<u8>) -> Seq<Seq<char>>
    decreases bytes.len(),
{
    let end = first_zero(bytes);
    if bytes.len() == 0 {
        Seq::empty()
    } else if 0 < end <= bytes.len() {
        seq![shown_text(bytes.take(end))] + arguments(bytes.skip(end))
    } else {
        arguments(bytes.drop_first())
    }
}

/// The command line of a process, where it has one.
pub open spec fn command_reading(bytes: Seq<u8>) -> Option<Seq<char>> {
    if arguments(bytes).len() == 0 {
        None
    } else {
        Some(shortened(joined(arguments(bytes), " "@), 220))
    }
}

proof fn lemma_first_zero_at(bytes: Seq<u8>, at: int)
    requires
        0 <= at <= bytes.len(),
        forall|i: int| 0 <= i < at ==> #[trigger] bytes[i] != 0,
        at < bytes.len() ==> bytes[at] == 0,
    ensures
        first_zero(bytes) == at,
    decreases bytes.len(),
{
    if at > 0 {
        assert(bytes[0] != 0);
        let rest = bytes.drop_first();
        assert forall|i: int| 0 <= i < at - 1 implies #[trigger] rest[i] != 0 by {
            assert(rest[i] == bytes[i + 1]);
        }
        lemma_first_zero_at(rest, at - 1);
    }
}

pub fn process_command(bytes: &[u8]) -> (command: Option<String>)
    ensures
        option_text(command) == command_reading(bytes@),
{
    let mut parts: Vec<String> = Vec::new();
    let mut start: usize = 0;
    let total: usize = bytes.len();
    assert(bytes@.skip(0) =~= bytes@);
    assert(texts(parts@) =~= Seq::empty());
    assert(texts(parts@) + arguments(bytes@) =~= arguments(bytes@));
    while start < total
        invariant
            start <= total,
            total == bytes@.len(),
            total == bytes.len(),
            texts(parts@) + arguments(bytes@.skip(start as int)) == arguments(bytes@),
        decreases total - start,
    {
        let ghost rest = bytes@.skip(start as int);
        proof {
            lemma_first_zero(rest);
        }
        if bytes[start] == 0 {
            assert(rest.drop_first() =~= bytes@.skip(start + 1));
            start = start + 1;
        } else {
            let mut end: usize = start + 1;
            while end < total && bytes[end] != 0
                invariant
                    start < end <= total,
                    total == bytes@.len(),
                    forall|k: int| start <= k < end ==> #[trigger] bytes@[k] != 0,
                decreases total - end,
            {
                end = end + 1;
            }
            proof {
                lemma_first_zero_at(rest, end - start);
            }
            let mut part: Vec<u8> = Vec::new();
            extend_between(&mut part, bytes, start, end);
            assert(part@ =~= rest.take(end - start));
            let text = text_from_utf8_lossy(part.as_slice());
            let ghost before = texts(parts@);
            proof {
                lemma_texts_push(parts@, text);
            }
            parts.push(text);
            assert(rest.skip(end - start) =~= bytes@.skip(end as int));
            assert(texts(parts@) + arguments(bytes@.skip(end as int)) =~= before + arguments(
                rest,
            ));
            start = end;
        }
    }
    assert(bytes@.skip(start as int) =~= Seq::empty());
    assert(texts(parts@) + arguments(Seq::empty()) =~= texts(parts@));
    assert(texts(parts@).len() == parts@.len());
    if parts.len() == 0 {
        return None;
    }
    let joined_parts = join(&parts, " ");
    Some(truncate_chars(joined_parts.as_str(), 220))
}

/// The first piece that is long enough to be the identifier of a container, cut short.
pub open spec fn first_identifier(all: Seq<Seq<char>>) -> Option<Seq<char>>
    decreases all.len(),
{
    if all.len() == 0 {
        None
    } else if all[0].len() >= 64 {
        Some(all[0].take(12))
    } else {
        first_identifier(all.drop_first())
    }
}

/// The identifier of a container in a line: its first twelve digits.
pub open spec fn container_in(line: Seq<char>) -> Option<Seq<char>> {
    first_identifier(pieces(line, CharClass::NotHex))
}

pub fn short_container_id(line: &str) -> (id: Option<String>)
    ensures
        option_text(id) == container_in(line@),
{
    let all = split(line, CharClass::NotHex);
    let ghost model = texts(all@);
    let mut i: usize = 0;
    assert(model.skip(0) =~= model);
    while i < all.len()
        invariant
            i <= all@.len(),
            model == texts(all@),
            model == pieces(line@, CharClass::NotHex),
            first_identifier(model.skip(i as int)) == first_identifier(model),
        decreases all@.len() - i,
    {
        assert(model.skip(i as int).drop_first() =~= model.skip(i + 1));
        assert(model.skip(i as int)[0] == all@[i as int]@);
        if all[i].as_str().unicode_len() >= 64 {
            return Some(first_chars(all[i].as_str(), 12));
        }
        i = i + 1;
    }
    None
}

/// The first container that a line names.
pub open spec fn first_container(all: Seq<Seq<char>>) -> Option<Seq<char>>
    decreases all.len(),
{
    if all.len() == 0 {
        None
    } else {
        match container_in(all[0]) {
            Some(id) => Some(id),
            None => first_container(all.drop_first()),
        }
    }
}

/// The container that a process runs in, where it runs in one.
pub fn process_container_id(content: &str) -> (id: Option<String>)
    ensures
        option_text(id) == first_container(lines(content@)),
{
    let all = split_lines(content);
    let ghost model = texts(all@);
    let mut i: usize = 0;
    assert(model.skip(0) =~= model);
    while i < all.len()
        invariant
            i <= all@.len(),
            model == texts(all@),
            model == lines(content@),
            first_container(model.skip(i as int)) == first_container(model),
        decreases all@.len() - i,
    {
        assert(model.skip(i as int).drop_first() =~= model.skip(i + 1));
        assert(model.skip(i as int)[0] == all@[i as int]@);
        match short_container_id(all[i].as_str()) {
            Some(id) => return Some(id),
            None => {},
        }
        i = i + 1;
    }
    None
}

/// The texts of the files of a process, as far as they could be read.
pub struct ProcessFiles {
    pub io: String,
    pub comm: Option<String>,
    pub cmdline: Option<Vec<u8>>,
    pub cgroup: Option<String>,
}

/// The name that a process is shown under: its number where it has none.
pub open spec fn shown_name(pid: u32, comm: Option<String>) -> Seq<char> {
    match comm {
        Some(content) => match name_reading(content@) {
            Some(name) => name,
            None => decimal(pid as nat),
        },
        None => decimal(pid as nat),
    }
}

/// The command that a process is shown with: its name where it has none.
pub open spec fn shown_command(name: Seq<char>, cmdline: Option<Vec<u8>>) -> Seq<char> {
    match cmdline {
        Some(bytes) => match command_reading(bytes@) {
            Some(command) => command,
            None => name,
        },
        None => name,
    }
}

/// The reading of a process, where what it has read and written can be read.
pub fn process_counter(pid: u32, files: &ProcessFiles) -> (counter: Option<ProcessIoCounter>)
    ensures
        match counter {
            Some(counter) => {
                &&& counter.pid == pid
                &&& counter.name@ == shown_name(pid, files.comm)
                &&& counter.command@ == shown_command(counter.name@, files.cmdline)
                &&& option_text(counter.container_id) == (match files.cgroup {
                    Some(content) => first_container(lines(content@)),
                    None => None,
                })
                &&& last_io(lines(files.io@), "read_bytes:"@) == Some(counter.read_bytes as int)
                &&& last_io(lines(files.io@), "write_bytes:"@) == Some(counter.write_bytes as int)
            },
            None => last_io(lines(files.io@), "read_bytes:"@) is None || last_io(
                lines(files.io@),
                "write_bytes:"@,
            ) is None,
        },
{
    let counts = match parse_process_io_bytes(files.io.as_str()) {
        Some(counts) => counts,
        None => return None,
    };
    let known = match &files.comm {
        Some(content) => process_name(content.as_str()),
        None => None,
    };
    let name = match known {
        Some(name) => name,
        None => natural_text(pid as u64),
    };
    let line = match &files.cmdline {
        Some(bytes) => process_command(bytes.as_slice()),
        None => None,
    };
    let command = match line {
        Some(command) => command,
        None => name.clone(),
    };
    let container_id = match &files.cgroup {
        Some(content) => process_container_id(content.as_str()),
        None => None,
    };
    Some(
        ProcessIoCounter {
            pid,
            name,
            command,
            container_id,
            read_bytes: counts.0,
            write_bytes: counts.1,
        },
    )
}

// ---------------------------------------------------------------------------
// Laws
// ---------------------------------------------------------------------------

/// A shortened text is no longer than the limit and the dots, and one that is short enough is
/// kept.
pub proof fn shortened_texts_are_short(s: Seq<char>, limit: int)
    requires
        limit >= 0,
    ensures
        shortened(s, limit).len() <= limit + 3,
        s.len() <= limit ==> shortened(s, limit) == s,
{
    reveal_strlit("...");
}

/// The identifier of a container is shown with twelve characters.
pub proof fn container_ids_are_short(line: Seq<char>)
    ensures
        container_in(line) is Some ==> container_in(line)->0.len() == 12,
{
    lemma_identifier(pieces(line, CharClass::NotHex));
}

proof fn lemma_identifier(all: Seq<Seq<char>>)
    ensures
        first_identifier(all) is Some ==> first_identifier(all)->0.len() == 12,
    decreases all.len(),
{
    if all.len() > 0 && all[0].len() < 64 {
        lemma_identifier(all.drop_first());
    }
}

/// Sums and products that do not fit stay at the largest number.
pub proof fn readings_stay_at_the_largest_number(n: int)
    ensures
        n < 0x1_0000_0000_0000_0000 ==> at_most(n) == n,
        n >= 0x1_0000_0000_0000_0000 ==> at_most(n) == 0xFFFF_FFFF_FFFF_FFFF,
{
}

/// How a line of the processors is read. It begins with the word `cpu`; the fourth number and the
/// fifth, where there is one, count the time without work, and all numbers together count the time.
pub proof fn processors_rest_in_the_fourth_and_fifth_number(content: Seq<char>, values: Seq<int>)
    requires
        lines(content).len() > 0,
        words(lines(content)[0]).len() == values.len() + 1,
        forall|i: int|
            0 <= i < values.len() ==> #[trigger] values[i] >= 0 && number(
                words(lines(content)[0])[i + 1],
            ) == Some(values[i] as nat),
    ensures
        cpu_reading(content) is Some <==> words(lines(content)[0])[0] == "cpu"@ && values.len() >= 4,
        cpu_reading(content) matches Some((idle, total)) ==> total == at_most(sum_of(values))
            && idle == at_most(
            if values.len() > 4 {
                values[3] + values[4]
            } else {
                values[3]
            },
        ),
{
    let parts = words(lines(content)[0]).drop_first();
    assert forall|i: int| 0 <= i < parts.len() implies number(#[trigger] parts[i]) == Some(
        values[i] as nat,
    ) by {
        assert(values[i] >= 0);
    }
    lemma_all_numbers(parts, values);
}

proof fn lemma_all_numbers(parts: Seq<Seq<char>>, values: Seq<int>)
    requires
        parts.len() == values.len(),
        forall|i: int| 0 <= i < values.len() ==> #[trigger] values[i] >= 0,
        forall|i: int| 0 <= i < parts.len() ==> number(#[trigger] parts[i]) == Some(values[i] as nat),
    ensures
        numbers_among(parts) == values,
    decreases parts.len(),
{
    if parts.len() > 0 {
        let before = parts.drop_last();
        assert forall|i: int| 0 <= i < before.len() implies number(#[trigger] before[i]) == Some(
            values.drop_last()[i] as nat,
        ) by {
            assert(before[i] == parts[i]);
        }
        lemma_all_numbers(before, values.drop_last());
        assert(number(parts[parts.len() - 1]) == Some(values.last() as nat));
        assert(values.drop_last().push(values.last()) =~= values);
    } else {
        assert(values =~= Seq::<int>::empty());
    }
}

/// Numbers are added one by one, and words that are no numbers are passed over.
pub proof fn numbers_are_added(values: Seq<int>, value: int, all: Seq<Seq<char>>, word: Seq<char>)
    ensures
        sum_of(Seq::empty()) == 0,
        sum_of(values.push(value)) == sum_of(values) + value,
        numbers_among(Seq::empty()) == Seq::<int>::empty(),
        number(word) is None ==> numbers_among(all.push(word)) == numbers_among(all),
        number(word) is Some ==> numbers_among(all.push(word)) == numbers_among(all).push(
            number(word)->0 as int,
        ),
        number(word) is None ==> number_or_zero(word) == 0,
        number(word) is Some ==> number_or_zero(word) == number(word)->0,
{
    assert(values.push(value).drop_last() =~= values);
    assert(all.push(word).drop_last() =~= all);
}

/// An amount of memory is the first word after its key, in units of 1024 bytes. Of several lines
/// with one key the last counts.
pub proof fn memory_is_read_in_units_of_1024(
    key: Seq<char>,
    rest: Seq<char>,
    line: Seq<char>,
    all: Seq<Seq<char>>,
)
    ensures
        words(trimmed(rest)).len() > 0 && number(words(trimmed(rest))[0]) is Some ==> kib_reading(
            key + rest,
            key,
        ) == Some(at_most((number(words(trimmed(rest))[0])->0 * 1024) as int)),
        words(trimmed(rest)).len() == 0 || number(words(trimmed(rest))[0]) is None ==> kib_reading(
            key + rest,
            key,
        ) is None,
        !key.is_prefix_of(line) ==> kib_reading(line, key) is None,
        last_kib(Seq::empty(), key) is None,
        kib_reading(line, key) is Some ==> last_kib(all.push(line), key) == kib_reading(line, key),
        kib_reading(line, key) is None ==> last_kib(all.push(line), key) == last_kib(all, key),
{
    crate::pieces::prefixes_come_off(key, rest, line);
    assert(all.push(line).drop_last() =~= all);
}

/// The usage of a file system: its size and what is used of it are the last two words, and the words
/// before them are where it is mounted.
pub proof fn usage_stands_in_the_last_two_words(line: Seq<char>)
    ensures
        ({
            let parts = words(line);
            let n = parts.len() as int;
            &&& usage_reading(line) is Some <==> n >= 3 && number(parts[n - 2]) is Some && number(
                parts[n - 1],
            ) is Some
            &&& usage_reading(line) matches Some((total, used, place)) ==> total == number(
                parts[n - 2],
            )->0 && used == number(parts[n - 1])->0 && place == joined(
                parts.subrange(0, n - 2),
                seq![' '],
            )
        }),
{
    reveal_strlit(" ");
    assert(" "@ =~= seq![' ']);
    let parts = words(line);
    let n = parts.len() as int;
    if n >= 3 {
        assert(parts.take(n - 2) =~= parts.subrange(0, n - 2));
    }
}

/// Blank lines and the heading are passed over, and the first line of a file system is read.
pub proof fn the_first_file_system_is_read(line: Seq<char>, rest: Seq<Seq<char>>)
    ensures
        is_file_system(line) <==> trimmed(line).len() > 0 && !"Mounted"@.is_prefix_of(line),
        first_usage(Seq::empty()) is None,
        is_file_system(line) ==> first_usage(seq![line] + rest) == usage_reading(line),
        !is_file_system(line) ==> first_usage(seq![line] + rest) == first_usage(rest),
{
    assert((seq![line] + rest).drop_first() =~= rest);
}

/// Which devices are no disks: loops, memory, optical drives and floppies.
pub proof fn some_devices_are_no_disks(name: Seq<char>, rest: Seq<char>)
    ensures
        ignored_device(seq!['l', 'o', 'o', 'p'] + rest),
        ignored_device(seq!['r', 'a', 'm'] + rest),
        ignored_device(seq!['s', 'r'] + rest),
        ignored_device(seq!['f', 'd'] + rest),
        ignored_device(name) ==> name.len() >= 2 && (name[0] == 'l' || name[0] == 'r' || name[0]
            == 's' || name[0] == 'f'),
        name.len() >= 2 && name[0] == 's' && name[1] != 'r' ==> !ignored_device(name),
        name.len() >= 2 && name[0] == 'f' && name[1] != 'd' ==> !ignored_device(name),
{
    reveal_strlit("loop");
    reveal_strlit("ram");
    reveal_strlit("sr");
    reveal_strlit("fd");
    assert((seq!['l', 'o', 'o', 'p'] + rest).take(4) =~= "loop"@);
    assert((seq!['r', 'a', 'm'] + rest).take(3) =~= "ram"@);
    assert((seq!['s', 'r'] + rest).take(2) =~= "sr"@);
    assert((seq!['f', 'd'] + rest).take(2) =~= "fd"@);
    if "loop"@.is_prefix_of(name) {
        assert(name.subrange(0, 4)[0] == 'l');
    }
    if "ram"@.is_prefix_of(name) {
        assert(name.subrange(0, 3)[0] == 'r');
    }
    if "sr"@.is_prefix_of(name) {
        assert(name.subrange(0, 2)[0] == 's');
        assert(name.subrange(0, 2)[1] == 'r');
    }
    if "fd"@.is_prefix_of(name) {
        assert(name.subrange(0, 2)[0] == 'f');
        assert(name.subrange(0, 2)[1] == 'd');
    }
}

/// A line of a disk: its name is the third word, what was read the sixth and what was written the
/// tenth, in sectors of 512 bytes, and the time that it was busy the thirteenth. Lines of fewer than
/// fourteen words, of other devices and of what is no disk are passed over.
pub proof fn disks_are_read_in_sectors_of_512(line: Seq<char>, block_devices: Seq<Seq<char>>)
    ensures
        ({
            let parts = words(line);
            &&& device_reading(line, block_devices) is Some <==> parts.len() >= 14
                && block_devices.contains(parts[2]) && !ignored_device(parts[2])
            &&& device_reading(line, block_devices) matches Some((name, counts)) ==> {
                &&& name == parts[2]
                &&& counts.0 == at_most(number_or_zero(parts[5]) * 0x200)
                &&& counts.1 == at_most(number_or_zero(parts[9]) * 0x200)
                &&& counts.2 == number_or_zero(parts[12])
            }
        }),
{
}

/// Disks are added up line by line, and each keeps what its last line says.
pub proof fn disks_are_added_up(
    all: Seq<Seq<char>>,
    line: Seq<char>,
    block_devices: Seq<Seq<char>>,
)
    ensures
        disk_totals(Seq::empty(), block_devices) == (DiskTotals {
            read: 0,
            write: 0,
            devices: Map::empty(),
        }),
        device_reading(line, block_devices) is None ==> disk_totals(all.push(line), block_devices)
            == disk_totals(all, block_devices),
        device_reading(line, block_devices) matches Some((name, counts)) ==> {
            let before = disk_totals(all, block_devices);
            let after = disk_totals(all.push(line), block_devices);
            &&& after.read == at_most(before.read + counts.0)
            &&& after.write == at_most(before.write + counts.1)
            &&& after.devices == before.devices.insert(name, counts)
        },
{
    assert(all.push(line).drop_last() =~= all);
}

/// The loopback interface is called `lo`, or holds `loopback` in its name, whatever the case.
pub proof fn loopbacks_are_known_by_name(name: Seq<char>, before: Seq<char>, after: Seq<char>)
    ensures
        loopback(seq!['l', 'o']),
        loopback(seq!['L', 'O']),
        lowered(name) == "loopback"@ ==> loopback(before + name + after),
        loopback(name) ==> name.len() >= 2,
        name.len() > 2 && name.len() < 8 ==> !loopback(name),
{
    reveal_strlit("lo");
    reveal_strlit("loopback");
    assert(lowered(seq!['l', 'o']) =~= "lo"@);
    assert(lowered(seq!['L', 'O']) =~= "lo"@);
    assert("loopback"@.len() == 8);
    if lowered(name) == "loopback"@ {
        let whole = lowered(before + name + after);
        let at = before.len() as int;
        assert(lowered(name).len() == name.len());
        assert(whole.subrange(at, at + 8) =~= lowered(name));
        assert(crate::pieces::stands_at(whole, "loopback"@, at));
    }
}

/// A line of an interface: its name before the colon, what was received in the first word after it
/// and what was sent in the ninth. Lines without a colon, of fewer than sixteen words and of the
/// loopback are passed over.
pub proof fn interfaces_are_read_after_the_colon(
    name: Seq<char>,
    stats: Seq<char>,
    line: Seq<char>,
)
    requires
        !name.contains(':'),
    ensures
        interface_reading(name + seq![':'] + stats) == if loopback(trimmed(name)) || words(
            stats,
        ).len() < 16 {
            None
        } else {
            Some((number_or_zero(words(stats)[0]), number_or_zero(words(stats)[8])))
        },
        !line.contains(':') ==> interface_reading(line) is None,
{
    let whole = name + seq![':'] + stats;
    let class = CharClass::Colon;
    crate::pieces::lemma_first_of(whole, class);
    let at = crate::pieces::first_of(whole, class);
    assert(whole[name.len() as int] == ':');
    assert(class.has(whole[name.len() as int]));
    if at < name.len() {
        assert(whole[at] == name[at]);
        assert(name.contains(':'));
    }
    assert(at == name.len());
    assert(whole.take(at) =~= name);
    assert(whole.skip(at + 1) =~= stats);
    crate::pieces::lemma_first_of(line, class);
    if crate::pieces::first_of(line, class) < line.len() {
        assert(line[crate::pieces::first_of(line, class)] == ':');
    }
}

/// Interfaces are added up line by line, below the two lines of the heading.
pub proof fn interfaces_are_added_up(all: Seq<Seq<char>>, line: Seq<char>)
    ensures
        network_totals(Seq::empty()) == (0int, 0int),
        interface_reading(line) is None ==> network_totals(all.push(line)) == network_totals(all),
        interface_reading(line) matches Some(counts) ==> network_totals(all.push(line)) == (
            at_most(network_totals(all).0 + counts.0),
            at_most(network_totals(all).1 + counts.1),
        ),
        below_heading(seq![line, line] + all) == all,
        all.len() < 2 ==> below_heading(all).len() == 0,
{
    assert(all.push(line).drop_last() =~= all);
    assert((seq![line, line] + all).skip(2) =~= all);
}

/// The count of a process is what follows its key, without white space around it. Of several lines
/// with one key the last that is a number counts.
pub proof fn counts_follow_their_keys(
    key: Seq<char>,
    rest: Seq<char>,
    line: Seq<char>,
    all: Seq<Seq<char>>,
)
    ensures
        number(trimmed(rest)) is Some ==> io_reading(key + rest, key) == Some(
            number(trimmed(rest))->0 as int,
        ),
        number(trimmed(rest)) is None ==> io_reading(key + rest, key) is None,
        !key.is_prefix_of(line) ==> io_reading(line, key) is None,
        last_io(Seq::empty(), key) is None,
        io_reading(line, key) is Some ==> last_io(all.push(line), key) == io_reading(line, key),
        io_reading(line, key) is None ==> last_io(all.push(line), key) == last_io(all, key),
{
    crate::pieces::prefixes_come_off(key, rest, line);
    assert(all.push(line).drop_last() =~= all);
}

proof fn lemma_zero_is_first(bytes: Seq<u8>)
    ensures
        0 <= first_zero(bytes) <= bytes.len(),
        first_zero(bytes) < bytes.len() ==> bytes[first_zero(bytes)] == 0,
        forall|i: int| 0 <= i < first_zero(bytes) ==> #[trigger] bytes[i] != 0,
    decreases bytes.len(),
{
    if bytes.len() > 0 && bytes[0] != 0 {
        let rest = bytes.drop_first();
        lemma_zero_is_first(rest);
        assert forall|i: int| 0 <= i < first_zero(bytes) implies #[trigger] bytes[i] != 0 by {
            if i > 0 {
                assert(rest[i - 1] == bytes[i]);
            }
        }
    }
}

/// The arguments of a command are parted by zeros, and what is empty between zeros is none.
pub proof fn zeros_part_arguments(argument: Seq<u8>, rest: Seq<u8>)
    requires
        forall|i: int| 0 <= i < argument.len() ==> #[trigger] argument[i] != 0,
    ensures
        arguments(Seq::empty()) == Seq::<Seq<char>>::empty(),
        argument.len() > 0 ==> arguments(argument) == seq![shown_text(argument)],
        argument.len() > 0 ==> arguments(argument + seq![0u8] + rest) == seq![shown_text(argument)]
            + arguments(rest),
        arguments(seq![0u8] + rest) == arguments(rest),
{
    let zero = seq![0u8] + rest;
    assert(zero.drop_first() =~= rest);
    assert(first_zero(zero) == 0);
    assert(arguments(zero) == arguments(zero.drop_first()));
    if argument.len() > 0 {
        lemma_zero_is_first(argument);
        let n = argument.len() as int;
        if first_zero(argument) < n {
            assert(argument[first_zero(argument)] != 0);
        }
        assert(argument.take(n) =~= argument);
        assert(argument.skip(n) =~= Seq::<u8>::empty());
        assert(arguments(Seq::<u8>::empty()) == Seq::<Seq<char>>::empty());
        assert(arguments(argument) =~= seq![shown_text(argument)]);
        let whole = argument + seq![0u8] + rest;
        lemma_zero_is_first(whole);
        let at = first_zero(whole);
        assert(whole[n] == 0);
        if at < n {
            assert(whole[at] == argument[at]);
        }
        if at > n {
            assert(whole[n] != 0);
        }
        assert(at == n);
        assert(whole.take(n) =~= argument);
        assert(whole.skip(n) =~= zero);
    }
}

/// The name of a process has 80 characters at most and its command 220; what is left out is shown by
/// three dots. A process without a name is called by its number, and one without a command by its
/// name.
pub proof fn processes_have_names(
    pid: u32,
    comm: String,
    cmdline: Vec<u8>,
    name: Seq<char>,
)
    ensures
        trimmed(comm@).len() == 0 ==> shown_name(pid, Some(comm)) == decimal(pid as nat),
        0 < trimmed(comm@).len() <= 80 ==> shown_name(pid, Some(comm)) == trimmed(comm@),
        trimmed(comm@).len() > 80 ==> shown_name(pid, Some(comm)) == trimmed(comm@).subrange(0, 80)
            + seq!['.', '.', '.'],
        shown_name(pid, None) == decimal(pid as nat),
        shown_command(name, None) == name,
        arguments(cmdline@).len() == 0 ==> shown_command(name, Some(cmdline)) == name,
        arguments(cmdline@).len() > 0 ==> ({
            let text = joined(arguments(cmdline@), seq![' ']);
            &&& text.len() <= 220 ==> shown_command(name, Some(cmdline)) == text
            &&& text.len() > 220 ==> shown_command(name, Some(cmdline)) == text.subrange(0, 220)
                + seq!['.', '.', '.']
        }),
{
    reveal_strlit("...");
    reveal_strlit(" ");
    assert("..."@ =~= seq!['.', '.', '.']);
    assert(" "@ =~= seq![' ']);
    let text = joined(arguments(cmdline@), seq![' ']);
    if text.len() > 220 {
        assert(text.take(220) =~= text.subrange(0, 220));
    }
    if trimmed(comm@).len() > 80 {
        assert(trimmed(comm@).take(80) =~= trimmed(comm@).subrange(0, 80));
    }
}

/// A container is named by the first run of hexadecimal digits that is 64 long or longer, and called
/// by its first twelve.
pub proof fn containers_are_called_by_twelve_digits(
    first: Seq<char>,
    rest: Seq<Seq<char>>,
    line: Seq<char>,
    others: Seq<Seq<char>>,
)
    ensures
        first_identifier(Seq::empty()) is None,
        first.len() >= 64 ==> first_identifier(seq![first] + rest) == Some(first.subrange(0, 12)),
        first.len() < 64 ==> first_identifier(seq![first] + rest) == first_identifier(rest),
        container_in(line) == first_identifier(pieces(line, CharClass::NotHex)),
        first_container(Seq::empty()) is None,
        container_in(line) is Some ==> first_container(seq![line] + others) == container_in(line),
        container_in(line) is None ==> first_container(seq![line] + others) == first_container(
            others,
        ),
{
    assert((seq![first] + rest).drop_first() =~= rest);
    assert((seq![line] + others).drop_first() =~= others);
    if first.len() >= 64 {
        assert(first.take(12) =~= first.subrange(0, 12));
    }
}

} // verus!
