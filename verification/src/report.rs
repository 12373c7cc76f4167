use vstd::prelude::*;

verus! {

/// The operating-system family a report was produced on.
#[derive(Clone, Copy, Debug, PartialEq, Eq, Structural)]
pub enum OperatingSystem {
    MacOsX,
    IphoneOs,
    IphoneSimulator,
    Unknown,
}

/// The legacy architecture enumeration carried on older reports, used only
/// when no binary image exposes a recognized code type.
#[derive(Clone, Copy, Debug, PartialEq, Eq, Structural)]
pub enum Architecture {
    Armv6,
    Armv7,
    X86_32,
    X86_64,
    Ppc,
    Other,
}

/// How the processor type and subtype fields are encoded.
#[derive(Clone, Copy, Debug, PartialEq, Eq, Structural)]
pub enum TypeEncoding {
    Mach,
    Unknown,
}

/// A processor identification: an encoding plus numeric type and subtype.
#[derive(Clone, Copy, Debug, PartialEq, Eq, Structural)]
pub struct Processor {
    pub encoding: TypeEncoding,
    pub cpu_type: u64,
    pub cpu_subtype: u64,
}

/// System information: OS family, version and build strings, the report
/// timestamp in seconds (zero meaning absent), and the legacy architecture.
#[derive(Clone, Debug)]
pub struct SystemInfo {
    pub operating_system: OperatingSystem,
    pub os_version: String,
    pub os_build: Option<String>,
    pub timestamp: i64,
    pub architecture: Architecture,
}

/// Process information; every field is optional on old reports.
#[derive(Clone, Debug)]
pub struct ProcessInfo {
    pub process_name: Option<String>,
    pub process_id: Option<u64>,
    pub process_path: Option<String>,
    pub parent_process_name: Option<String>,
    pub parent_process_id: Option<u64>,
}

/// Application identifier and version.
#[derive(Clone, Debug)]
pub struct ApplicationInfo {
    pub identifier: String,
    pub version: String,
}

/// Hardware model and processor identification.
#[derive(Clone, Debug)]
pub struct MachineInfo {
    pub model: Option<String>,
    pub processor: Processor,
}

/// The signal that terminated the process.
#[derive(Clone, Debug)]
pub struct SignalInfo {
    pub name: String,
    pub code: String,
    pub address: u64,
}

/// A symbol a frame's program counter falls inside.
#[derive(Clone, Debug)]
pub struct SymbolInfo {
    pub name: String,
    pub start_address: u64,
}

/// One stack frame: the program counter, and the owning symbol when the
/// crash-time symbolication knew it.
#[derive(Clone, Debug)]
pub struct StackFrame {
    pub pc: u64,
    pub symbol: Option<SymbolInfo>,
}

/// An uncaught language-level exception record.
#[derive(Clone, Debug)]
pub struct ExceptionInfo {
    pub name: String,
    pub reason: String,
    pub frames: Vec<StackFrame>,
}

/// One register name and value.
#[derive(Clone, Debug)]
pub struct RegisterValue {
    pub name: String,
    pub value: u64,
}

/// One thread: its number, whether it crashed, its frames and registers.
#[derive(Clone, Debug)]
pub struct Thread {
    pub thread_number: u64,
    pub crashed: bool,
    pub frames: Vec<StackFrame>,
    pub registers: Vec<RegisterValue>,
}

/// One loaded binary image.
#[derive(Clone, Debug)]
pub struct BinaryImage {
    pub base_address: u64,
    pub size: u64,
    pub uuid: Option<Vec<u8>>,
    pub code_type: Option<Processor>,
    pub name: String,
}

/// Report-level information: the report's own identifier, when embedded.
#[derive(Clone, Debug)]
pub struct ReportInfo {
    pub uuid: Option<Vec<u8>>,
}

/// A decoded crash report: the field set the renderer consumes.
#[derive(Clone, Debug)]
pub struct CrashReport {
    pub system_info: SystemInfo,
    pub process_info: Option<ProcessInfo>,
    pub application_info: ApplicationInfo,
    pub machine_info: Option<MachineInfo>,
    pub signal: SignalInfo,
    pub exception: Option<ExceptionInfo>,
    pub threads: Vec<Thread>,
    pub binary_images: Vec<BinaryImage>,
    pub report_info: ReportInfo,
}

impl CrashReport {
    /// The zero-valued report: every optional field absent, every string
    /// empty, every list empty, every number zero.  An empty payload after
    /// a valid envelope decodes to exactly this value.
    pub fn zeroed() -> (r: CrashReport)
        ensures
            r.system_info.operating_system == OperatingSystem::Unknown,
            r.system_info.os_version@ == Seq::<char>::empty(),
            r.system_info.os_build is None,
            r.system_info.timestamp == 0,
            r.system_info.architecture == Architecture::Other,
            r.process_info is None,
            r.application_info.identifier@ == Seq::<char>::empty(),
            r.application_info.version@ == Seq::<char>::empty(),
            r.machine_info is None,
            r.signal.name@ == Seq::<char>::empty(),
            r.signal.code@ == Seq::<char>::empty(),
            r.signal.address == 0,
            r.exception is None,
            r.threads@ == Seq::<Thread>::empty(),
            r.binary_images@ == Seq::<BinaryImage>::empty(),
            r.report_info.uuid is None,
    {
        CrashReport {
            system_info: SystemInfo {
                operating_system: OperatingSystem::Unknown,
                os_version: String::new(),
                os_build: None,
                timestamp: 0,
                architecture: Architecture::Other,
            },
            process_info: None,
            application_info: ApplicationInfo {
                identifier: String::new(),
                version: String::new(),
            },
            machine_info: None,
            signal: SignalInfo { name: String::new(), code: String::new(), address: 0 },
            exception: None,
            threads: Vec::new(),
            binary_images: Vec::new(),
            report_info: ReportInfo { uuid: None },
        }
    }
}

} // verus!
