use plcrash::machine;
use plcrash::symbolicate::{file_stem, last_component, str_ends_with, Frame, Location};
use plcrash::textfmt::{dec_u64, hex_0x_right_align, hex_w, left_align, uuid_hyphenated};

#[test]
fn hex_minimal_and_padded() {
    assert_eq!(hex_w(0, 1), "0");
    assert_eq!(hex_w(0x2a, 1), "2a");
    assert_eq!(hex_w(0xdeadbeef, 1), "deadbeef");
    assert_eq!(hex_w(0x2a, 8), "0000002a");
    assert_eq!(hex_w(0x104489574, 16), "0000000104489574");
    assert_eq!(hex_w(u64::MAX, 16), "ffffffffffffffff");
}

#[test]
fn decimal() {
    assert_eq!(dec_u64(0), "0");
    assert_eq!(dec_u64(62836), "62836");
    assert_eq!(dec_u64(u64::MAX), "18446744073709551615");
}

#[test]
fn alignment() {
    assert_eq!(left_align("ab", 4), "ab  ");
    assert_eq!(left_align("abcdef", 4), "abcdef");
    assert_eq!(hex_0x_right_align(0x1000, 10), "    0x1000");
    assert_eq!(hex_0x_right_align(0x10447a000, 10), "0x10447a000");
    assert_eq!(hex_0x_right_align(0x1000, 18), "            0x1000");
}

#[test]
fn uuid_display() {
    let bytes: [u8; 16] = [
        0x5a, 0x53, 0x7c, 0xe0, 0xc8, 0x87, 0x33, 0x73, 0xb4, 0xd9, 0x21, 0x96, 0x43, 0x6a, 0x4f,
        0x14,
    ];
    assert_eq!(uuid_hyphenated(&bytes), "5a537ce0-c887-3373-b4d9-2196436a4f14");
}

#[test]
fn architecture_names() {
    assert_eq!(machine::arch_name_of(machine::CPU_TYPE_ARM, machine::CPU_SUBTYPE_ARM_V6), "armv6");
    assert_eq!(machine::arch_name_of(machine::CPU_TYPE_ARM, machine::CPU_SUBTYPE_ARM_V7), "armv7");
    assert_eq!(
        machine::arch_name_of(machine::CPU_TYPE_ARM, machine::CPU_SUBTYPE_ARM_V7S),
        "armv7s"
    );
    assert_eq!(machine::arch_name_of(machine::CPU_TYPE_ARM, 99), "arm-unknown");
    assert_eq!(
        machine::arch_name_of(machine::CPU_TYPE_ARM64, machine::CPU_SUBTYPE_ARM_ALL),
        "arm64"
    );
    assert_eq!(machine::arch_name_of(machine::CPU_TYPE_ARM64, machine::CPU_SUBTYPE_ARM_V8), "armv8");
    assert_eq!(machine::arch_name_of(machine::CPU_TYPE_X86, 3), "i386");
    assert_eq!(machine::arch_name_of(machine::CPU_TYPE_X86_64, 3), "x86_64");
    assert_eq!(machine::arch_name_of(machine::CPU_TYPE_POWERPC, 0), "powerpc");
    assert_eq!(machine::arch_name_of(77, 0), "???");
}

#[test]
fn code_type_table() {
    assert_eq!(machine::code_type_of(machine::CPU_TYPE_ARM), Some(("ARM", false)));
    assert_eq!(machine::code_type_of(machine::CPU_TYPE_ARM64), Some(("ARM-64", true)));
    assert_eq!(machine::code_type_of(machine::CPU_TYPE_X86), Some(("X86", false)));
    assert_eq!(machine::code_type_of(machine::CPU_TYPE_X86_64), Some(("X86-64", true)));
    assert_eq!(machine::code_type_of(machine::CPU_TYPE_POWERPC), Some(("PPC", false)));
    assert_eq!(machine::code_type_of(1), None);
}

#[test]
fn path_helpers() {
    assert!(str_ends_with("MyApp.dSYM/", ".dSYM/"));
    assert!(!str_ends_with("MyApp.dSYM", ".dSYM/"));
    assert!(!str_ends_with("a", ".dSYM/"));
    assert_eq!(last_component("a/b/c"), "c");
    assert_eq!(last_component("plain"), "plain");
    assert_eq!(file_stem("MyApp.dSYM"), "MyApp");
    assert_eq!(file_stem("MyApp"), "MyApp");
    assert_eq!(file_stem("MZ.app.dSYM"), "MZ.app");
    assert_eq!(file_stem(".hidden"), ".hidden");
}

#[test]
fn location_display_and_equality() {
    let loc = Location {
        file: Some(String::from("MZWriteQueue.m")),
        line: Some(408),
        column: Some(5),
    };
    assert_eq!(loc.display_string(), "MZWriteQueue.m:408");
    let loc2 = Location {
        file: Some(String::from("MZWriteQueue.m")),
        line: Some(408),
        column: Some(5),
    };
    assert_eq!(loc, loc2);
    let loc3 = Location { file: None, line: None, column: None };
    assert_eq!(loc3.display_string(), "???:0");
    assert_ne!(loc, loc3);
}

#[test]
fn frame_display() {
    let full = Frame {
        function: Some(String::from("-[MZWriteQueue addQueueItems:]")),
        location: Some(Location {
            file: Some(String::from("MZWriteQueue.m")),
            line: Some(408),
            column: None,
        }),
    };
    assert_eq!(full.display_string(), "-[MZWriteQueue addQueueItems:] (MZWriteQueue.m:408)");
    let bare = Frame {
        function: None,
        location: Some(Location {
            file: Some(String::from("MZWriteQueue.m")),
            line: Some(408),
            column: None,
        }),
    };
    assert_eq!(bare.display_string(), "(MZWriteQueue.m:408)");
    let nothing = Frame { function: None, location: None };
    assert_eq!(nothing.display_string(), "");
}
