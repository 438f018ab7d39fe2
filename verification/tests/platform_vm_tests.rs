use typescript::platform::dylib::{build_dylib_name, get_dylib_extension, get_dylib_prefix, DylibError};
use typescript::platform::{
    align_size, is_aligned, is_freebsd, is_linux, is_macos, is_netbsd, is_supported_platform, is_unix,
    is_windows, Arch, Endianness, OsType, PlatformInfo,
};
use typescript::vm::exception::ExceptionHandler;
use typescript::vm::exception_ops::ExceptionOperations;
use typescript::vm::executor::InstructionExecutor;
use typescript::vm::perf::PerformanceMonitor;

#[test]
fn align_size_rounds_up_to_the_alignment() {
    assert_eq!(align_size(5, 4), 8);
    assert_eq!(align_size(8, 4), 8);
    assert_eq!(align_size(0, 8), 0);
    assert_eq!(align_size(1, 1), 1);
    assert_eq!(align_size(4097, 4096), 8192);
    assert_eq!(align_size(13, 16), 16);
}

#[test]
fn is_aligned_tests_multiples() {
    assert!(is_aligned(16, 8));
    assert!(!is_aligned(12, 8));
    assert!(is_aligned(0, 4096));
    assert!(is_aligned(9, 3));
}

#[test]
fn os_predicates() {
    assert!(is_windows(OsType::Windows));
    assert!(!is_unix(OsType::Windows));
    assert!(is_macos(OsType::Macos) && is_unix(OsType::Macos));
    assert!(is_linux(OsType::Linux) && is_unix(OsType::Linux));
    assert!(is_freebsd(OsType::Freebsd) && is_unix(OsType::Freebsd));
    assert!(is_netbsd(OsType::Netbsd) && is_unix(OsType::Netbsd));
    assert!(is_unix(OsType::Unknown));
    assert!(is_supported_platform(OsType::Linux));
    assert!(is_supported_platform(OsType::Windows));
    assert!(is_supported_platform(OsType::Macos));
    assert!(!is_supported_platform(OsType::Freebsd));
    assert!(!is_supported_platform(OsType::Unknown));
}

#[test]
fn platform_names_and_description() {
    assert_eq!(PlatformInfo::get_platform_name(OsType::Macos), "macOS");
    assert_eq!(PlatformInfo::get_platform_name(OsType::Freebsd), "FreeBSD");
    let info = PlatformInfo::current(OsType::Linux, Arch::X86_64, Endianness::Little, 8);
    assert_eq!(info.name, "Linux");
    assert!(info.is_64bit() && !info.is_32bit());
    assert!(info.is_little_endian() && !info.is_big_endian());
    assert!(info.is_x86_64() && !info.is_x86() && !info.is_aarch64() && !info.is_arm() && !info.is_riscv());
    assert_eq!(info.to_string(), "Linux (X86_64, 64bit, Little)");
    let arm = PlatformInfo::current(OsType::Unknown, Arch::Riscv32, Endianness::Big, 4);
    assert!(arm.is_riscv() && arm.is_32bit() && arm.is_big_endian());
    assert_eq!(arm.to_string(), "Unknown (Riscv32, 32bit, Big)");
}

#[test]
fn dylib_names_per_system() {
    assert_eq!(get_dylib_extension(OsType::Windows), "dll");
    assert_eq!(get_dylib_extension(OsType::Macos), "dylib");
    assert_eq!(get_dylib_extension(OsType::Linux), "so");
    assert_eq!(get_dylib_prefix(OsType::Windows), "");
    assert_eq!(get_dylib_prefix(OsType::Netbsd), "lib");
    assert_eq!(build_dylib_name("foo", OsType::Linux), "libfoo.so");
    assert_eq!(build_dylib_name("foo", OsType::Windows), "foo.dll");
    assert_eq!(build_dylib_name("bar", OsType::Macos), "libbar.dylib");
}

#[test]
fn dylib_errors_carry_messages() {
    let e = DylibError::OpenError(String::from("missing"));
    match e {
        DylibError::OpenError(m) => assert_eq!(m, "missing"),
        _ => panic!("wrong variant"),
    }
    assert!(matches!(DylibError::SymbolError(String::new()), DylibError::SymbolError(_)));
    assert!(matches!(DylibError::CloseError(String::new()), DylibError::CloseError(_)));
    assert_eq!(DylibError::OpenError(String::from("x")).message(), "Failed to open dynamic library: x");
    assert_eq!(DylibError::SymbolError(String::from("f")).message(), "Failed to find symbol: f");
    assert_eq!(DylibError::CloseError(String::from("busy")).message(), "Failed to close dynamic library: busy");
}

#[test]
fn try_blocks_push_and_pop_handlers() {
    let mut handlers: Vec<ExceptionHandler> = Vec::new();
    ExceptionOperations::try_start(10, 20, Some(30), Some(String::from("e")), &mut handlers).unwrap();
    assert_eq!(handlers.len(), 1);
    assert_eq!(handlers[0].start_ip, 10);
    assert_eq!(handlers[0].end_ip, 20);
    assert_eq!(handlers[0].handler_ip, 20);
    assert!(handlers[0].has_finally);
    assert_eq!(handlers[0].finally_ip, Some(30));
    ExceptionOperations::try_start(12, 15, None, None, &mut handlers).unwrap();
    assert!(!handlers[1].has_finally);
    ExceptionOperations::try_end(&mut handlers).unwrap();
    assert_eq!(handlers.len(), 1);
    ExceptionOperations::try_end(&mut handlers).unwrap();
    ExceptionOperations::try_end(&mut handlers).unwrap();
    assert!(handlers.is_empty());
}

#[test]
fn handler_lookup_takes_the_first_covering() {
    let mut handlers: Vec<ExceptionHandler> = Vec::new();
    ExceptionOperations::try_start(0, 50, None, None, &mut handlers).unwrap();
    ExceptionOperations::try_start(10, 20, None, Some(String::from("x")), &mut handlers).unwrap();
    let h = ExceptionOperations::find_exception_handler(15, &handlers).unwrap();
    assert_eq!(h.start_ip, 0);
    assert_eq!(h.exception_var, None);
    assert!(ExceptionOperations::find_exception_handler(50, &handlers).is_none());
    let only_inner = &handlers[1..];
    let h = ExceptionOperations::find_exception_handler(19, only_inner).unwrap();
    assert_eq!(h.exception_var, Some(String::from("x")));
    assert!(ExceptionOperations::find_exception_handler(20, only_inner).is_none());
}

#[test]
fn jumps_move_the_instruction_pointer() {
    assert_eq!(InstructionExecutor::jump(5, 10), 15);
    assert_eq!(InstructionExecutor::jump(-10, 10), 0);
    assert_eq!(InstructionExecutor::jump(0, 7), 7);
}

#[test]
fn performance_monitor_counts_when_enabled() {
    let mut m = PerformanceMonitor::new();
    assert!(m.is_enabled());
    m.start();
    m.record_instruction();
    m.record_instruction();
    m.record_call(3);
    m.record_call(1);
    m.record_memory_allocation(64);
    m.record_memory_deallocation(64);
    m.record_gc(120);
    m.record_gc(30);
    m.update_max_memory_used(500);
    m.update_max_memory_used(200);
    assert_eq!(m.instruction_count, 2);
    assert_eq!(m.call_count, 2);
    assert_eq!(m.max_stack_depth, 3);
    assert_eq!(m.memory_allocations, 1);
    assert_eq!(m.memory_deallocations, 1);
    assert_eq!(m.gc_count, 2);
    assert_eq!(m.gc_total_time_us, 150);
    assert_eq!(m.max_memory_used, 500);
    assert!(m.start_time.is_some());
}

#[test]
fn performance_monitor_ignores_events_when_disabled() {
    let mut m = PerformanceMonitor::default();
    m.disable();
    m.record_instruction();
    m.record_call(9);
    m.record_gc(10);
    m.update_max_memory_used(10);
    assert_eq!(m.instruction_count, 0);
    assert_eq!(m.call_count, 0);
    assert_eq!(m.gc_count, 0);
    assert_eq!(m.max_memory_used, 0);
    assert_eq!(m.elapsed_us(), 0);
    m.enable();
    m.record_instruction();
    assert_eq!(m.instruction_count, 1);
}

#[test]
fn vm_type_monitor_counts() {
    let mut m = typescript::vm::types::PerformanceMonitor::new();
    m.record_instruction();
    m.record_memory_allocation(8);
    m.record_memory_allocation(8);
    m.record_memory_deallocation(8);
    assert_eq!(m.instruction_count, 1);
    assert_eq!(m.memory_allocations, 2);
}
