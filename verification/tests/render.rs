use plcrash::machine;
use plcrash::report::{
    BinaryImage, CrashReport, MachineInfo, ProcessInfo, Processor, RegisterValue, StackFrame,
    SymbolInfo, Thread, TypeEncoding,
};
use plcrash::symbolicate::{Frame, Location};
use plcrash::text::{format_stack_frame, image_for_address, sort_image_order, symbol_string, text_report};

fn image(base: u64, size: u64, name: &str) -> BinaryImage {
    BinaryImage {
        base_address: base,
        size,
        uuid: None,
        code_type: None,
        name: String::from(name),
    }
}

fn mach_processor(cpu_type: u64) -> Processor {
    Processor { encoding: TypeEncoding::Mach, cpu_type, cpu_subtype: 0 }
}

#[test]
fn zero_report_renders_fixed_lines() {
    let report = CrashReport::zeroed();
    let text = text_report(&report, None).unwrap();
    assert!(text.contains("Report Version:  104\n"));
    assert!(text.contains("Incident Identifier: "));
    assert!(text.contains("Hardware Model:      ???\n"));
    assert!(text.contains("Process:         ??? [???]\n"));
    assert!(text.contains("Date/Time:       ???\n"));
    assert!(text.contains("OS Version:      Unknown  (???)\n"));
    assert!(text.ends_with("Binary Images:\n"));
}

#[test]
fn image_table_sorted_ascending() {
    let mut report = CrashReport::zeroed();
    report.binary_images.push(image(0x3000, 0x100, "/bin/c"));
    report.binary_images.push(image(0x1000, 0x100, "/bin/a"));
    report.binary_images.push(image(0x2000, 0x100, "/bin/b"));
    let order = sort_image_order(&report.binary_images);
    assert_eq!(order, vec![1, 2, 0]);
    let text = text_report(&report, None).unwrap();
    let pa = text.find("/bin/a").unwrap();
    let pb = text.find("/bin/b").unwrap();
    let pc = text.find("/bin/c").unwrap();
    assert!(pa < pb && pb < pc);
}

#[test]
fn image_table_sort_is_stable() {
    let mut report = CrashReport::zeroed();
    report.binary_images.push(image(0x1000, 0x100, "/bin/first"));
    report.binary_images.push(image(0x1000, 0x100, "/bin/second"));
    let order = sort_image_order(&report.binary_images);
    assert_eq!(order, vec![0, 1]);
}

#[test]
fn main_executable_designator() {
    let mut report = CrashReport::zeroed();
    report.process_info = Some(ProcessInfo {
        process_name: Some(String::from("MetaZ")),
        process_id: Some(4),
        process_path: Some(String::from("/Applications/MetaZ.app/Contents/MacOS/MetaZ")),
        parent_process_name: None,
        parent_process_id: None,
    });
    report.binary_images.push(image(0x1000, 0x100, "/usr/lib/dyld"));
    report.binary_images.push(image(0x2000, 0x100, "/Applications/MetaZ.app/Contents/MacOS/MetaZ"));
    let text = text_report(&report, None).unwrap();
    assert!(text.contains(" +MetaZ "));
    assert!(text.contains("  dyld "));
}

#[test]
fn code_type_from_images_and_widths() {
    let mut report = CrashReport::zeroed();
    let mut img = image(0x1000, 0x100, "/bin/a");
    img.code_type = Some(mach_processor(machine::CPU_TYPE_ARM64));
    report.binary_images.push(img);
    let mut thread = Thread { thread_number: 0, crashed: true, frames: Vec::new(), registers: Vec::new() };
    thread.registers.push(RegisterValue { name: String::from("x0"), value: 0x2a });
    report.threads.push(thread);
    let text = text_report(&report, None).unwrap();
    assert!(text.contains("Code Type:       ARM-64\n"));
    // 64-bit register width: 0x followed by sixteen digits.
    assert!(text.contains("x0    : 0x000000000000002a \n"));
    assert!(text.contains("Thread 0 crashed with ARM-64 Thread State:\n"));
}

#[test]
fn code_type_fallback_and_32_bit_widths() {
    let mut report = CrashReport::zeroed();
    report.system_info.architecture = plcrash::report::Architecture::Armv7;
    let mut thread = Thread { thread_number: 2, crashed: true, frames: Vec::new(), registers: Vec::new() };
    thread.registers.push(RegisterValue { name: String::from("r0"), value: 0x2a });
    report.threads.push(thread);
    let text = text_report(&report, None).unwrap();
    assert!(text.contains("Code Type:       ARM\n"));
    // 32-bit register width: 0x followed by eight digits.
    assert!(text.contains("r0    : 0x0000002a \n"));
    assert!(text.contains("Crashed Thread: 2\n"));
}

#[test]
fn register_name_remap_on_arm() {
    let mut report = CrashReport::zeroed();
    report.machine_info = Some(MachineInfo {
        model: Some(String::from("iPhone3,1")),
        processor: mach_processor(machine::CPU_TYPE_ARM),
    });
    report.system_info.architecture = plcrash::report::Architecture::Armv7;
    let mut thread = Thread { thread_number: 0, crashed: true, frames: Vec::new(), registers: Vec::new() };
    thread.registers.push(RegisterValue { name: String::from("r12"), value: 1 });
    report.threads.push(thread);
    let text = text_report(&report, None).unwrap();
    assert!(text.contains("ip    : 0x00000001 \n"));
    assert!(!text.contains("r12"));
}

#[test]
fn frame_without_symbol_or_resolver() {
    let mut report = CrashReport::zeroed();
    report.binary_images.push(image(0x10447a000, 0x104489600 - 0x10447a000, "/app/MetaZ"));
    let frame = StackFrame { pc: 0x104489574, symbol: None };
    let line = format_stack_frame(&frame, 1, &report, true, None).unwrap();
    assert!(line.ends_with("0x10447a000 + 62836"));
    let expected = format!("{:<4}{:<35} {:#018x} {}", 1, "MetaZ", 0x104489574u64, "0x10447a000 + 62836");
    assert_eq!(line, expected);
}

#[test]
fn frame_with_symbol_strips_underscore_on_vendor_os() {
    let mut report = CrashReport::zeroed();
    report.system_info.operating_system = plcrash::report::OperatingSystem::MacOsX;
    report.binary_images.push(image(0x10447a000, 0xf600, "/app/MetaZ"));
    let frame = StackFrame {
        pc: 0x104489574,
        symbol: Some(SymbolInfo { name: String::from("_main"), start_address: 0x104489500 }),
    };
    let line = format_stack_frame(&frame, 0, &report, true, None).unwrap();
    assert!(line.ends_with("main + 116"));
}

#[test]
fn frame_symbol_kept_on_unknown_os() {
    let mut report = CrashReport::zeroed();
    report.binary_images.push(image(0x1000, 0x1000, "/app/x"));
    let frame = StackFrame {
        pc: 0x1800,
        symbol: Some(SymbolInfo { name: String::from("_fn"), start_address: 0x1700 }),
    };
    let line = format_stack_frame(&frame, 0, &report, true, None).unwrap();
    assert!(line.ends_with("_fn + 256"));
}

#[test]
fn exception_block_rendered() {
    let mut report = CrashReport::zeroed();
    report.exception = Some(plcrash::report::ExceptionInfo {
        name: String::from("NSRangeException"),
        reason: String::from("index out of bounds"),
        frames: vec![StackFrame { pc: 0x1234, symbol: None }],
    });
    let text = text_report(&report, None).unwrap();
    assert!(text.contains(
        "*** Terminating app due to uncaught exception 'NSRangeException', reason: 'index out of bounds'\n"
    ));
    assert!(text.contains("Last Exception Backtrace:\n"));
}

#[test]
fn embedded_incident_identifier_used() {
    let mut report = CrashReport::zeroed();
    report.report_info.uuid = Some(vec![
        0x5a, 0x53, 0x7c, 0xe0, 0xc8, 0x87, 0x33, 0x73, 0xb4, 0xd9, 0x21, 0x96, 0x43, 0x6a, 0x4f,
        0x14,
    ]);
    let text = text_report(&report, None).unwrap();
    assert!(text.contains("Incident Identifier: 5a537ce0-c887-3373-b4d9-2196436a4f14\n"));
}

#[test]
fn image_lookup_by_address() {
    let mut report = CrashReport::zeroed();
    report.binary_images.push(image(0x1000, 0x100, "/bin/a"));
    report.binary_images.push(image(0x2000, 0x100, "/bin/b"));
    let img = image_for_address(&report, 0x2050).unwrap();
    assert_eq!(img.name, "/bin/b");
    assert!(image_for_address(&report, 0x1100).is_none());
    assert!(image_for_address(&report, 0xfff).is_none());
    // The range end is exclusive.
    assert!(image_for_address(&report, 0x10ff).is_some());
}

#[test]
fn timestamp_rendered_as_calendar_date() {
    let mut report = CrashReport::zeroed();
    report.system_info.timestamp = 1234567890;
    let text = text_report(&report, None).unwrap();
    assert!(text.contains("Date/Time:       2009-02-13 23:31:30\n"));
}

#[test]
fn resolved_location_suffix_on_symbol_frame() {
    let mut report = CrashReport::zeroed();
    report.binary_images.push(image(0x10447a000, 0xf600, "/app/MetaZ"));
    let frame = StackFrame {
        pc: 0x104489574,
        symbol: Some(SymbolInfo {
            name: String::from("-[MZWriteQueue addQueueItems:]"),
            start_address: 0x1044894ae,
        }),
    };
    let resolved = Some(Frame {
        function: Some(String::from("-[MZWriteQueue addQueueItems:]")),
        location: Some(Location {
            file: Some(String::from("MZWriteQueue.m")),
            line: Some(408),
            column: Some(5),
        }),
    });
    let s = symbol_string(&frame, &report, 0x10447a000, 62836, &resolved);
    assert!(s.ends_with(" (MZWriteQueue.m:408)"));
    assert_eq!(s, "-[MZWriteQueue addQueueItems:] + 198 (MZWriteQueue.m:408)");
}

#[test]
fn unresolved_symbolless_frame_has_no_suffix() {
    let report = CrashReport::zeroed();
    let frame = StackFrame { pc: 0x104489574, symbol: None };
    let s = symbol_string(&frame, &report, 0x10447a000, 62836, &None);
    assert_eq!(s, "0x10447a000 + 62836");
}
