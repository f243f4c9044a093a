use os4::config::MAX_SYSCALL_NUM;
use os4::mm::MemorySet;
use os4::syscall::{sys_exit, sys_get_time, sys_mmap, sys_set_priority, sys_task_info, sys_yield};
use os4::task::{TaskControlBlock, TaskStatus};
use os4::time::Clock;

fn running_task(syscall_times: Vec<u32>, start_time: usize) -> TaskControlBlock {
    TaskControlBlock::new(TaskStatus::Running, syscall_times, start_time)
}

#[test]
fn set_priority_always_fails() {
    assert_eq!(sys_set_priority(0), -1);
    assert_eq!(sys_set_priority(1), -1);
    assert_eq!(sys_set_priority(-1), -1);
    assert_eq!(sys_set_priority(isize::MIN), -1);
    assert_eq!(sys_set_priority(isize::MAX), -1);
}

#[test]
fn yield_returns_zero_and_readies_task() {
    let mut task = running_task(vec![0; MAX_SYSCALL_NUM], 0);
    assert_eq!(sys_yield(&mut task), 0);
    assert_eq!(task.status, TaskStatus::Ready);
}

#[test]
fn exit_retires_task() {
    let mut task = running_task(vec![0; MAX_SYSCALL_NUM], 42);
    sys_exit(&mut task, 0);
    assert_eq!(task.status, TaskStatus::Exited);
    let mut task2 = running_task(vec![0; MAX_SYSCALL_NUM], 42);
    sys_exit(&mut task2, -7);
    assert_eq!(task2.status, TaskStatus::Exited);
    assert_eq!(task2.start_time, 42);
}

#[test]
fn get_time_decomposes_microsecond_clock() {
    let mut mem = MemorySet::new();
    assert_eq!(sys_mmap(&mut mem, 0x1000, 0x1000, 3), 0);
    let clock = Clock::new(1_234_567_890);
    let (ret, tv) = sys_get_time(&clock, &mem, 0x1000, 0);
    assert_eq!(ret, 0);
    let tv = tv.unwrap();
    assert_eq!(tv.sec, 1234);
    assert_eq!(tv.usec, 567_890);
    assert_eq!(tv.sec * 1_000_000 + tv.usec, 1_234_567_890);
}

#[test]
fn get_time_under_one_second() {
    let mut mem = MemorySet::new();
    assert_eq!(sys_mmap(&mut mem, 0, 0x1000, 2), 0);
    let clock = Clock::new(999_999);
    let (ret, tv) = sys_get_time(&clock, &mem, 0x10, 0);
    assert_eq!(ret, 0);
    let tv = tv.unwrap();
    assert_eq!(tv.sec, 0);
    assert_eq!(tv.usec, 999_999);
}

#[test]
fn get_time_ignores_timezone_argument() {
    let mut mem = MemorySet::new();
    assert_eq!(sys_mmap(&mut mem, 0x1000, 0x1000, 3), 0);
    let clock = Clock::new(5_000_001);
    for tz in [0usize, 1, usize::MAX] {
        let (ret, tv) = sys_get_time(&clock, &mem, 0x1000, tz);
        assert_eq!(ret, 0);
        let tv = tv.unwrap();
        assert_eq!(tv.sec, 5);
        assert_eq!(tv.usec, 1);
    }
}

#[test]
fn get_time_fails_on_unmapped_pointer() {
    let mem = MemorySet::new();
    let clock = Clock::new(1_000_000);
    let (ret, tv) = sys_get_time(&clock, &mem, 0x1000, 0);
    assert_eq!(ret, -1);
    assert!(tv.is_none());
}

#[test]
fn get_time_fails_on_read_only_page() {
    let mut mem = MemorySet::new();
    assert_eq!(sys_mmap(&mut mem, 0x1000, 0x1000, 1), 0);
    let clock = Clock::new(1_000_000);
    let (ret, tv) = sys_get_time(&clock, &mem, 0x1000, 0);
    assert_eq!(ret, -1);
    assert!(tv.is_none());
}

#[test]
fn task_info_reports_running_whatever_the_status() {
    let mut mem = MemorySet::new();
    assert_eq!(sys_mmap(&mut mem, 0x1000, 0x1000, 3), 0);
    let clock = Clock::new(250_000);
    let task = TaskControlBlock::new(TaskStatus::Ready, vec![0; MAX_SYSCALL_NUM], 100);
    let (ret, info) = sys_task_info(&clock, &mem, &task, 0x1000);
    assert_eq!(ret, 0);
    assert_eq!(info.unwrap().status, TaskStatus::Running);
}

#[test]
fn task_info_reports_counters_and_elapsed_time() {
    let mut mem = MemorySet::new();
    assert_eq!(sys_mmap(&mut mem, 0x1000, 0x1000, 3), 0);
    let clock = Clock::new(250_999);
    let mut times = vec![0u32; MAX_SYSCALL_NUM];
    times[64] = 3;
    times[124] = 1;
    let task = running_task(times.clone(), 100);
    let (ret, info) = sys_task_info(&clock, &mem, &task, 0x1000);
    assert_eq!(ret, 0);
    let info = info.unwrap();
    // 250 ms on the clock, first scheduled at 100 ms
    assert_eq!(info.time, 150);
    assert_eq!(info.syscall_times, times);
    assert_eq!(info.syscall_times.len(), MAX_SYSCALL_NUM);
}

#[test]
fn task_info_fails_on_unmapped_pointer() {
    let mem = MemorySet::new();
    let clock = Clock::new(250_000);
    let task = running_task(vec![0; MAX_SYSCALL_NUM], 0);
    let (ret, info) = sys_task_info(&clock, &mem, &task, 0x1000);
    assert_eq!(ret, -1);
    assert!(info.is_none());
}

#[test]
fn clock_millisecond_reading_truncates() {
    let clock = Clock::new(1_999);
    assert_eq!(clock.get_time_ms(), 1);
    assert_eq!(clock.get_time_us(), 1_999);
}
