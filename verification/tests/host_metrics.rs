use easy_deploy::host_metrics::{
    begin_process_rates, cpu_change, cpu_detail, disk_rate_devices, is_ignored_block_device,
    is_loopback_interface, memory_used, parse_cpu_sample, parse_df_line, parse_disk_io_sample,
    parse_disk_usage, parse_memory_sample, parse_network_sample, parse_process_io_bytes,
    process_command, process_container_id, process_counter, process_id, process_name,
    process_rate_metric, rate_detail, rate_metric, short_container_id, truncate_chars,
    CounterSample, DeviceCounterSample, ProcessFiles, ProcessIoCounter, ProcessIoRead,
    ProcessIoSample, ProcessRateStep, RateDeviceMetric, RateProcessMetric, RatedDevice,
    RatedProcess,
};

type ProcessIoFixture<'a> = (u32, &'a str, &'a str, Option<&'a str>, u64, u64);

fn process_io_read(
    processes: Vec<ProcessIoFixture<'_>>,
    permission_denied_count: usize,
    sampled_at_nanos: u64,
) -> ProcessIoRead {
    ProcessIoRead {
        sample: ProcessIoSample {
            processes: processes
                .into_iter()
                .map(
                    |(pid, name, command, container_id, read_bytes, write_bytes)| {
                        ProcessIoCounter {
                            pid,
                            name: name.to_owned(),
                            command: command.to_owned(),
                            container_id: container_id.map(ToOwned::to_owned),
                            read_bytes,
                            write_bytes,
                        }
                    },
                )
                .collect(),
            sampled_at_nanos,
        },
        permission_denied_count,
    }
}

fn rate_label(bytes_per_sec: f64) -> String {
    if bytes_per_sec < 1024.0 {
        format!("{} B/s", bytes_per_sec as u64)
    } else {
        format!("{:.2} KB/s", (bytes_per_sec / 1024.0 * 100.0).floor() / 100.0)
    }
}

/// Reads the processes, turns what changed into rates and shows them.
fn shown_processes(
    previous: &mut Option<ProcessIoSample>,
    current: Option<ProcessIoRead>,
) -> (Vec<RateProcessMetric>, String) {
    match begin_process_rates(previous, current) {
        ProcessRateStep::Nothing(detail) => (Vec::new(), detail),
        ProcessRateStep::Measure {
            changes,
            elapsed_nanos,
            permission_denied_count,
        } => {
            let elapsed = elapsed_nanos as f64 / 1_000_000_000.0;
            let rated = changes
                .into_iter()
                .map(|change| {
                    let read = change.read as f64 / elapsed;
                    let write = change.write as f64 / elapsed;
                    RatedProcess {
                        metric: RateProcessMetric {
                            pid: change.pid,
                            name: change.name,
                            command: change.command,
                            container_id: change.container_id,
                            read_label: rate_label(read),
                            write_label: rate_label(write),
                            total_label: rate_label(read + write),
                        },
                        total_order: (read + write).to_bits(),
                        write_order: write.to_bits(),
                    }
                })
                .collect();
            process_rate_metric(rated, permission_denied_count)
        }
    }
}

#[test]
fn process_rate_metric_waits_for_second_sample() {
    let mut previous = None;
    let (processes, detail) = shown_processes(
        &mut previous,
        Some(process_io_read(
            vec![(42, "api", "easy-deploy-api", None, 1_024, 2_048)],
            0,
            0,
        )),
    );

    assert!(processes.is_empty());
    assert_eq!(detail, "等待下一次进程 IO 采样");
    assert!(previous.is_some());
}

#[test]
fn process_rate_metric_sorts_by_total_disk_rate() {
    let mut previous = Some(
        process_io_read(
            vec![
                (42, "api", "easy-deploy-api", None, 1_024, 2_048),
                (
                    77,
                    "worker",
                    "worker --job",
                    Some("abcdef123456"),
                    4_096,
                    4_096,
                ),
                (88, "idle", "idle", None, 0, 0),
            ],
            0,
            0,
        )
        .sample,
    );

    let (processes, detail) = shown_processes(
        &mut previous,
        Some(process_io_read(
            vec![
                (42, "api", "easy-deploy-api", None, 3_072, 4_096),
                (
                    77,
                    "worker",
                    "worker --job",
                    Some("abcdef123456"),
                    4_096,
                    12_288,
                ),
                (88, "idle", "idle", None, 0, 0),
            ],
            2,
            2_000_000_000,
        )),
    );

    assert_eq!(detail, "按总读写速率排序，已跳过 2 个无权限进程");
    assert_eq!(processes.len(), 2);
    assert_eq!(processes[0].pid, 77);
    assert_eq!(processes[0].name, "worker");
    assert_eq!(processes[0].container_id.as_deref(), Some("abcdef123456"));
    assert_eq!(processes[0].read_label, "0 B/s");
    assert_eq!(processes[0].write_label, "4.00 KB/s");
    assert_eq!(processes[0].total_label, "4.00 KB/s");
    assert_eq!(processes[1].pid, 42);
    assert_eq!(processes[1].total_label, "2.00 KB/s");
}

#[test]
fn process_rate_metric_reports_permission_only_result() {
    let mut previous = Some(
        process_io_read(
            vec![(42, "api", "easy-deploy-api", None, 1_024, 2_048)],
            0,
            0,
        )
        .sample,
    );

    let (processes, detail) = shown_processes(
        &mut previous,
        Some(process_io_read(
            vec![(42, "api", "easy-deploy-api", None, 1_024, 2_048)],
            12,
            1_000_000_000,
        )),
    );

    assert!(processes.is_empty());
    assert_eq!(detail, "未采集到可读进程 IO，已跳过 12 个无权限进程");
}

#[test]
fn truncates_long_text_by_characters() {
    assert_eq!(truncate_chars("abcdef", 3), "abc...");
    assert_eq!(truncate_chars("中文命令", 2), "中文...");
    assert_eq!(truncate_chars("short", 10), "short");
}

#[test]
fn parses_df_line_with_mount_point() {
    let sample = parse_df_line("/ 107374182400 32212254720").expect("df line");
    assert_eq!(sample.total, 107_374_182_400);
    assert_eq!(sample.used, 32_212_254_720);
    assert_eq!(sample.mount_point, "/");
}

#[test]
fn parses_process_io_and_container_id() {
    let io = "rchar: 9\nwchar: 8\nread_bytes: 1024\nwrite_bytes: 2048\n";
    assert_eq!(parse_process_io_bytes(io), Some((1_024, 2_048)));
    assert_eq!(
        short_container_id(
            "0::/system.slice/docker-0123456789abcdef0123456789abcdef0123456789abcdef0123456789abcdef.scope"
        )
        .as_deref(),
        Some("0123456789ab")
    );
}

#[test]
fn processes_that_cannot_be_read_are_forgotten() {
    let mut previous = Some(process_io_read(vec![], 0, 0).sample);
    let (processes, detail) = shown_processes(&mut previous, None);
    assert!(processes.is_empty());
    assert_eq!(detail, "当前系统不支持采集");
    assert!(previous.is_none());
}

fn rated_process(pid: u32, name: &str, total: u64, write: u64) -> RatedProcess {
    RatedProcess {
        metric: RateProcessMetric {
            pid,
            name: name.to_owned(),
            command: name.to_owned(),
            container_id: None,
            read_label: String::new(),
            write_label: String::new(),
            total_label: String::new(),
        },
        total_order: total,
        write_order: write,
    }
}

#[test]
fn twenty_processes_are_shown_in_order() {
    let mut rated: Vec<RatedProcess> = (0..25)
        .map(|index| rated_process(index, "p", u64::from(index), 0))
        .collect();
    rated.push(rated_process(100, "b", 24, 0));
    rated.push(rated_process(101, "a", 24, 1));
    let (shown, detail) = process_rate_metric(rated, 0);
    assert_eq!(shown.len(), 20);
    assert_eq!(shown[0].pid, 101);
    assert_eq!(shown[1].pid, 100);
    assert_eq!(shown[2].pid, 24);
    assert_eq!(detail, "按总读写速率排序");
    let (shown, detail) = process_rate_metric(Vec::new(), 0);
    assert!(shown.is_empty());
    assert_eq!(detail, "暂无进程读写");
}

fn rated_device(name: &str, utilization: u64, total: u64) -> RatedDevice {
    RatedDevice {
        metric: RateDeviceMetric {
            name: name.to_owned(),
            read_label: String::new(),
            write_label: String::new(),
            total_label: String::new(),
            utilization_label: String::new(),
        },
        utilization_order: utilization,
        total_order: total,
    }
}

#[test]
fn disk_rate_devices_returns_top_20_by_busy_then_total_rate() {
    let mut rated: Vec<RatedDevice> = (0..25)
        .map(|index| rated_device(&format!("sd{index:02}"), index + 1, (index + 1) * 512))
        .collect();
    rated.push(rated_device("fast-tie", 25, 32_768));
    let shown = disk_rate_devices(rated);
    assert_eq!(shown.len(), 20);
    assert_eq!(shown[0].metric.name, "fast-tie");
    assert_eq!(shown[1].metric.name, "sd24");
    assert_eq!(shown[19].metric.name, "sd06");
}

fn counters(read: u64, write: u64, busy_millis: u64, at: u64) -> CounterSample {
    CounterSample {
        read,
        write,
        devices: vec![(
            "sda".to_owned(),
            DeviceCounterSample {
                read,
                write,
                busy_millis,
            },
        )],
        sampled_at_nanos: at,
    }
}

#[test]
fn changes_are_taken_between_two_readings() {
    let mut previous = None;
    let first = rate_metric(&mut previous, Some(counters(1_024, 2_048, 100, 0))).expect("change");
    assert_eq!((first.read, first.write), (0, 0));
    assert!(first.devices.is_empty());
    assert_eq!(first.elapsed_nanos, None);
    let second = rate_metric(
        &mut previous,
        Some(counters(3_072, 1_000, 600, 2_000_000_000)),
    )
    .expect("change");
    assert_eq!((second.read, second.write), (2_048, 0));
    assert_eq!(second.devices[0].name, "sda");
    assert_eq!(second.devices[0].busy_millis, 500);
    assert_eq!(second.elapsed_nanos, Some(2_000_000_000));
    assert!(rate_metric(&mut previous, None).is_none());
    assert_eq!(
        previous.as_ref().map(|sample| (sample.read, sample.write)),
        Some((3_072, 1_000))
    );
    assert_eq!(
        rate_detail("读", "1 B/s", "写", "2 B/s"),
        "读 1 B/s · 写 2 B/s"
    );
}

#[test]
fn processor_times_are_read_and_held_against_each_other() {
    let first = parse_cpu_sample("cpu  10 20 30 40 50\ncpu0 1 2 3 4\n").expect("sample");
    assert_eq!((first.idle, first.total), (90, 150));
    let second = parse_cpu_sample("cpu 20 30 40 60 60\n").expect("sample");
    let mut previous = None;
    assert_eq!(cpu_change(&mut previous, first).total, 0);
    let change = cpu_change(&mut previous, second);
    assert_eq!((change.busy, change.total), (30, 60));
    assert!(parse_cpu_sample("").is_none());
    assert!(parse_cpu_sample("intr 1 2 3 4").is_none());
    assert!(parse_cpu_sample("cpu 1 2 3").is_none());
    assert_eq!(cpu_detail(Some(8)), "8 核心");
    assert_eq!(cpu_detail(None), "CPU 核心数未知");
}

#[test]
fn memory_is_read_in_bytes() {
    let content = "MemTotal:       1000 kB\nMemFree: 1 kB\nMemAvailable:    400 kB\n";
    assert_eq!(parse_memory_sample(content), Some((1_024_000, 409_600)));
    assert_eq!(parse_memory_sample("MemTotal: 1 kB\n"), None);
    assert_eq!(memory_used(1_024_000, 409_600), 614_400);
    assert_eq!(memory_used(1, 2), 0);
}

#[test]
fn file_systems_are_read_below_the_heading() {
    let stdout = b"Mounted on 1B-blocks Used\n\n/mnt/my disk 100 40\n".to_vec();
    let sample = parse_disk_usage(stdout).expect("usage");
    assert_eq!(sample.mount_point, "/mnt/my disk");
    assert_eq!((sample.total, sample.used), (100, 40));
    assert!(parse_disk_usage(vec![0xff]).is_none());
    assert!(parse_df_line("/ 100").is_none());
    assert!(parse_df_line("/ x 1").is_none());
}

#[test]
fn disks_are_read_by_device() {
    let content = "   8       0 sda 1 2 10 4 5 6 20 8 0 700 11\n   8       1 sda1 1 2 10 4 5 6 20 8 0 700 11\n   7       0 loop0 1 2 10 4 5 6 20 8 0 700 11\nshort line\n";
    let sample = parse_disk_io_sample(
        content,
        &vec!["sda".to_owned(), "loop0".to_owned()],
        5,
    );
    assert_eq!((sample.read, sample.write), (5_120, 10_240));
    assert_eq!(sample.devices.len(), 1);
    assert_eq!(sample.devices[0].0, "sda");
    assert_eq!(sample.devices[0].1.busy_millis, 700);
    assert_eq!(sample.sampled_at_nanos, 5);
    assert!(is_ignored_block_device("ram0"));
    assert!(is_ignored_block_device("sr0"));
    assert!(is_ignored_block_device("fd0"));
    assert!(!is_ignored_block_device("vda"));
}

#[test]
fn network_interfaces_are_summed_up() {
    let content = "Inter-| Receive\n face |bytes\n    lo: 1 0 0 0 0 0 0 0 1 0 0 0 0 0 0 0\n  eth0: 100 0 0 0 0 0 0 0 200 0 0 0 0 0 0 0\n  eth1: 10 0 0 0 0 0 0 0 20 0 0 0 0 0 0 0\n  bad: 1 2\n";
    let sample = parse_network_sample(content, 7);
    assert_eq!((sample.read, sample.write), (110, 220));
    assert!(sample.devices.is_empty());
    assert!(is_loopback_interface("LO"));
    assert!(is_loopback_interface("Loopback Pseudo-Interface"));
    assert!(!is_loopback_interface("eth0"));
}

#[test]
fn processes_are_named_by_their_files() {
    assert_eq!(process_id("42"), Some(42));
    assert_eq!(process_id("self"), None);
    assert_eq!(process_name(" api\n").as_deref(), Some("api"));
    assert_eq!(process_name(" \n"), None);
    assert_eq!(
        process_command(b"\0/bin/api\0--port\x0080\0").as_deref(),
        Some("/bin/api --port 80")
    );
    assert_eq!(process_command(b"\0\0"), None);
    assert_eq!(process_command(b"a\xffb").as_deref(), Some("a\u{fffd}b"));
    let cgroup = format!("1:cpu:/\n0::/docker/{}\n", "ab".repeat(32));
    assert_eq!(
        process_container_id(&cgroup).as_deref(),
        Some("abababababab")
    );
    let counter = process_counter(
        42,
        &ProcessFiles {
            io: "read_bytes: 1\nwrite_bytes: 2\n".to_owned(),
            comm: None,
            cmdline: Some(Vec::new()),
            cgroup: Some(cgroup),
        },
    )
    .expect("counter");
    assert_eq!(counter.name, "42");
    assert_eq!(counter.command, "42");
    assert_eq!(counter.container_id.as_deref(), Some("abababababab"));
    assert_eq!((counter.read_bytes, counter.write_bytes), (1, 2));
    assert!(process_counter(
        42,
        &ProcessFiles {
            io: "read_bytes: 1\n".to_owned(),
            comm: None,
            cmdline: None,
            cgroup: None,
        },
    )
    .is_none());
}

#[test]
fn rate_metric_reports_unavailable_without_current_sample() {
    let mut previous = None;
    assert!(rate_metric(&mut previous, None).is_none());
    assert!(previous.is_none());
}

fn device(name: &str, busy_millis: u64) -> Vec<(String, DeviceCounterSample)> {
    vec![(
        name.to_owned(),
        DeviceCounterSample {
            read: 0,
            write: 0,
            busy_millis,
        },
    )]
}

#[test]
fn disk_rate_devices_handle_missing_devices_and_zero_elapsed() {
    for elapsed_nanos in [3_000_000_000, 0] {
        let mut previous = Some(CounterSample {
            read: 0,
            write: 0,
            devices: device("sda", 1_000),
            sampled_at_nanos: 0,
        });
        let change = rate_metric(
            &mut previous,
            Some(CounterSample {
                read: 0,
                write: 0,
                devices: device("vdb", 2_000),
                sampled_at_nanos: elapsed_nanos,
            }),
        )
        .expect("change");
        assert!(change.devices.is_empty());
        assert_eq!(change.elapsed_nanos, Some(elapsed_nanos));
    }
    assert!(disk_rate_devices(Vec::new()).is_empty());
}
