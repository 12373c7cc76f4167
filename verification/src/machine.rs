use vstd::prelude::*;

verus! {

// Capability bits used in the definition of cpu_type.
pub const CPU_ARCH_MASK: u64 = 0xff000000;
pub const CPU_ARCH_ABI64: u64 = 0x01000000;

// Machine types known by all.
pub const CPU_TYPE_X86: u64 = 7;
pub const CPU_TYPE_X86_64: u64 = CPU_TYPE_X86 | CPU_ARCH_ABI64;
pub const CPU_TYPE_ARM: u64 = 12;
pub const CPU_TYPE_ARM64: u64 = CPU_TYPE_ARM | CPU_ARCH_ABI64;
pub const CPU_TYPE_POWERPC: u64 = 18;

// ARM subtypes.
pub const CPU_SUBTYPE_ARM_ALL: u64 = 0;
pub const CPU_SUBTYPE_ARM_V6: u64 = 6;
pub const CPU_SUBTYPE_ARM_V7: u64 = 9;
pub const CPU_SUBTYPE_ARM_V7S: u64 = 11;
pub const CPU_SUBTYPE_ARM_V8: u64 = 13;

/// The display label and address-width class of a recognized CPU type.
/// The second component is true for the 64-bit-ABI variants.
pub open spec fn spec_code_type(cpu: u64) -> Option<(&'static str, bool)> {
    if cpu == CPU_TYPE_ARM {
        Some(("ARM", false))
    } else if cpu == CPU_TYPE_ARM64 {
        Some(("ARM-64", true))
    } else if cpu == CPU_TYPE_X86 {
        Some(("X86", false))
    } else if cpu == CPU_TYPE_X86_64 {
        Some(("X86-64", true))
    } else if cpu == CPU_TYPE_POWERPC {
        Some(("PPC", false))
    } else {
        None
    }
}

/// Map a numeric CPU type to its display label and address-width class.
pub fn code_type_of(cpu: u64) -> (r: Option<(&'static str, bool)>)
    ensures
        r == spec_code_type(cpu),
{
    if cpu == CPU_TYPE_ARM {
        Some(("ARM", false))
    } else if cpu == CPU_TYPE_ARM64 {
        Some(("ARM-64", true))
    } else if cpu == CPU_TYPE_X86 {
        Some(("X86", false))
    } else if cpu == CPU_TYPE_X86_64 {
        Some(("X86-64", true))
    } else if cpu == CPU_TYPE_POWERPC {
        Some(("PPC", false))
    } else {
        None
    }
}

/// The architecture display string for a CPU type and subtype, `???` when
/// the type is not recognized.
pub open spec fn spec_arch_name(cpu: u64, subtype: u64) -> &'static str {
    if cpu == CPU_TYPE_ARM {
        if subtype == CPU_SUBTYPE_ARM_V6 {
            "armv6"
        } else if subtype == CPU_SUBTYPE_ARM_V7 {
            "armv7"
        } else if subtype == CPU_SUBTYPE_ARM_V7S {
            "armv7s"
        } else {
            "arm-unknown"
        }
    } else if cpu == CPU_TYPE_ARM64 {
        if subtype == CPU_SUBTYPE_ARM_ALL {
            "arm64"
        } else if subtype == CPU_SUBTYPE_ARM_V8 {
            "armv8"
        } else {
            "arm64-unknown"
        }
    } else if cpu == CPU_TYPE_X86 {
        "i386"
    } else if cpu == CPU_TYPE_X86_64 {
        "x86_64"
    } else if cpu == CPU_TYPE_POWERPC {
        "powerpc"
    } else {
        "???"
    }
}

/// Map a CPU type and subtype to the architecture display string.
pub fn arch_name_of(cpu: u64, subtype: u64) -> (r: &'static str)
    ensures
        r == spec_arch_name(cpu, subtype),
{
    if cpu == CPU_TYPE_ARM {
        if subtype == CPU_SUBTYPE_ARM_V6 {
            "armv6"
        } else if subtype == CPU_SUBTYPE_ARM_V7 {
            "armv7"
        } else if subtype == CPU_SUBTYPE_ARM_V7S {
            "armv7s"
        } else {
            "arm-unknown"
        }
    } else if cpu == CPU_TYPE_ARM64 {
        if subtype == CPU_SUBTYPE_ARM_ALL {
            "arm64"
        } else if subtype == CPU_SUBTYPE_ARM_V8 {
            "armv8"
        } else {
            "arm64-unknown"
        }
    } else if cpu == CPU_TYPE_X86 {
        "i386"
    } else if cpu == CPU_TYPE_X86_64 {
        "x86_64"
    } else if cpu == CPU_TYPE_POWERPC {
        "powerpc"
    } else {
        "???"
    }
}

} // verus!
