//! What the host is doing: readings of its processors, memory, disks, network and processes, what
//! changed between two readings, and which devices and processes are shown.

pub mod changes;
pub mod readings;

pub use changes::{
    begin_process_rates, cpu_change, disk_rate_devices, memory_used, process_rate_metric,
    rate_detail, rate_metric, CounterChange, CpuChange, DeviceChange, ProcessIoChange,
    ProcessRateStep, RateDeviceMetric, RateProcessMetric, RatedDevice, RatedProcess,
};
pub use readings::{
    cpu_detail, is_ignored_block_device, is_loopback_interface, parse_cpu_sample, parse_df_line,
    parse_disk_io_sample, parse_disk_usage, parse_meminfo_kib, parse_memory_sample,
    parse_network_sample, parse_process_io_bytes, process_command, process_container_id,
    process_counter, process_id, process_name, short_container_id, truncate_chars,
    unsupported_detail, CounterSample, CpuSample, DeviceCounterSample, DiskUsageSample,
    ProcessIoCounter, ProcessFiles, ProcessIoRead, ProcessIoSample,
};
