use vstd::prelude::*;
use vstd::string::StrSliceExecFns;
use vstd::string::StringExecFns;
use vstd::multiset::Multiset;

use crate::error::ErrorKind;
use crate::machine;
use crate::report::{
    Architecture, BinaryImage, CrashReport, OperatingSystem, RegisterValue, StackFrame, Thread,
    TypeEncoding,
};
use crate::symbolicate::{spec_build_id, Frame, Symbolicate};
use crate::textfmt::{
    dec_u64, hex_0x_right_align, hex_w, left_align, spec_dec, spec_hex_0x_right_align, spec_hex_w,
    spec_left_align, spec_uuid_hyphenated, uuid_hyphenated,
};

verus! {

/// The newline character.
pub open spec fn nl() -> Seq<char> {
    seq!['\n']
}

/// An optional string shown as itself, or as `???` when absent.
pub open spec fn spec_opt_str(o: Option<String>) -> Seq<char> {
    match o {
        Some(s) => s@,
        None => "???"@,
    }
}

/// An optional number shown in decimal, or as `???` when absent.
pub open spec fn spec_opt_dec(o: Option<u64>) -> Seq<char> {
    match o {
        Some(v) => spec_dec(v as nat),
        None => "???"@,
    }
}

/// The vendor display name of an operating-system family.
pub open spec fn spec_os_name(os: OperatingSystem) -> &'static str {
    match os {
        OperatingSystem::MacOsX => "Mac OS X",
        OperatingSystem::IphoneOs => "iPhone OS",
        OperatingSystem::IphoneSimulator => "Mac OS X",
        OperatingSystem::Unknown => "Unknown",
    }
}

fn os_name(os: OperatingSystem) -> (r: &'static str)
    ensures
        r == spec_os_name(os),
{
    match os {
        OperatingSystem::MacOsX => "Mac OS X",
        OperatingSystem::IphoneOs => "iPhone OS",
        OperatingSystem::IphoneSimulator => "Mac OS X",
        OperatingSystem::Unknown => "Unknown",
    }
}

/// The first recognized code type among the binary images: the image must
/// carry a processor record with the recognized machine encoding and a
/// known CPU type.
pub open spec fn spec_scan_code_type(images: Seq<BinaryImage>) -> Option<(&'static str, bool)>
    decreases images.len(),
{
    if images.len() == 0 {
        None
    } else {
        match images[0].code_type {
            Some(p) => if p.encoding == TypeEncoding::Mach && machine::spec_code_type(p.cpu_type)
                is Some {
                machine::spec_code_type(p.cpu_type)
            } else {
                spec_scan_code_type(images.skip(1))
            },
            None => spec_scan_code_type(images.skip(1)),
        }
    }
}

/// The legacy code type: what the old architecture enumeration maps to.
pub open spec fn spec_legacy_code_type(a: Architecture) -> (&'static str, bool) {
    match a {
        Architecture::Armv6 => ("ARM", false),
        Architecture::Armv7 => ("ARM", false),
        Architecture::X86_32 => ("X86", false),
        Architecture::X86_64 => ("X86-64", true),
        Architecture::Ppc => ("PPC", false),
        Architecture::Other => ("Unknown", true),
    }
}

/// The code-type label and address-width class the whole document uses:
/// from the first image with a recognized machine-encoded CPU type, else
/// from the legacy architecture field, else `Unknown` at 64-bit width.
pub open spec fn spec_derived_code_type(report: CrashReport) -> (&'static str, bool) {
    match spec_scan_code_type(report.binary_images@) {
        Some(ct) => ct,
        None => spec_legacy_code_type(report.system_info.architecture),
    }
}

/// Derive the code-type label and the 64-bit flag for a report.
pub fn derived_code_type(report: &CrashReport) -> (r: (&'static str, bool))
    ensures
        r == spec_derived_code_type(*report),
{
    let images = &report.binary_images;
    proof {
        assert(images@.skip(0) =~= images@);
    }
    let mut i: usize = 0;
    while i < images.len()
        invariant
            i <= images@.len(),
            images@ == report.binary_images@,
            spec_scan_code_type(images@) == spec_scan_code_type(images@.skip(i as int)),
        decreases images@.len() - i,
    {
        proof {
            assert(images@.skip(i as int)[0] == images@[i as int]);
            assert(images@.skip(i as int).skip(1) =~= images@.skip(i as int + 1));
        }
        match &images[i].code_type {
            Some(p) => {
                if p.encoding == TypeEncoding::Mach {
                    if let Some(ct) = machine::code_type_of(p.cpu_type) {
                        return ct;
                    }
                }
            },
            None => {},
        }
        i = i + 1;
    }
    match report.system_info.architecture {
        Architecture::Armv6 => ("ARM", false),
        Architecture::Armv7 => ("ARM", false),
        Architecture::X86_32 => ("X86", false),
        Architecture::X86_64 => ("X86-64", true),
        Architecture::Ppc => ("PPC", false),
        Architecture::Other => ("Unknown", true),
    }
}

/// The position of the first binary image whose range `[base, base+size)`
/// contains the address.
pub open spec fn spec_image_index(images: Seq<BinaryImage>, address: u64) -> Option<int>
    decreases images.len(),
{
    if images.len() == 0 {
        None
    } else if images[0].base_address <= address && address - images[0].base_address
        < images[0].size {
        Some(0)
    } else {
        match spec_image_index(images.skip(1), address) {
            Some(i) => Some(i + 1),
            None => None,
        }
    }
}

/// Find the binary image whose address range contains the given address.
pub fn image_for_address<'a>(report: &'a CrashReport, address: u64) -> (r: Option<
    &'a BinaryImage,
>)
    ensures
        match r {
            Some(img) => {
                &&& spec_image_index(report.binary_images@, address) matches Some(i)
                &&& *img == report.binary_images@[spec_image_index(
                    report.binary_images@,
                    address,
                )->Some_0]
                &&& img.base_address <= address
                &&& address - img.base_address < img.size
            },
            None => spec_image_index(report.binary_images@, address) is None,
        },
{
    let images = &report.binary_images;
    proof {
        assert(images@.skip(0) =~= images@);
    }
    let mut i: usize = 0;
    while i < images.len()
        invariant
            i <= images@.len(),
            images@ == report.binary_images@,
            (match spec_image_index(images@.skip(i as int), address) {
                Some(k) => spec_image_index(images@, address) == Some(k + i),
                None => spec_image_index(images@, address) is None,
            }),
            forall|j: int|
                0 <= j < i ==> !((#[trigger] images@[j]).base_address <= address && address
                    - images@[j].base_address < images@[j].size),
        decreases images@.len() - i,
    {
        proof {
            assert(images@.skip(i as int)[0] == images@[i as int]);
            assert(images@.skip(i as int).skip(1) =~= images@.skip(i as int + 1));
        }
        let img = &images[i];
        if img.base_address <= address && address - img.base_address < img.size {
            proof {
                assert(spec_image_index(images@.skip(i as int), address) == Some(0int));
                assert(spec_image_index(images@, address) == Some(i as int));
            }
            return Some(img);
        }
        i = i + 1;
    }
    proof {
        assert(images@.skip(i as int).len() == 0);
    }
    None
}


/// The order indices `s` with index `x` placed before the first run at
/// the end whose images have strictly larger base addresses; equal keys
/// keep the earlier index first.
pub open spec fn spec_insert_order(s: Seq<usize>, images: Seq<BinaryImage>, x: usize) -> Seq<usize>
    decreases s.len(),
{
    if s.len() == 0 {
        seq![x]
    } else if images[x as int].base_address < images[s.last() as int].base_address {
        spec_insert_order(s.drop_last(), images, x).push(s.last())
    } else {
        s.push(x)
    }
}

/// The image indices `0 .. n` stably sorted ascending by base address.
pub open spec fn spec_sort_order_up_to(images: Seq<BinaryImage>, n: int) -> Seq<usize>
    decreases n,
{
    if n <= 0 {
        Seq::<usize>::empty()
    } else {
        spec_insert_order(spec_sort_order_up_to(images, n - 1), images, (n - 1) as usize)
    }
}

/// The order in which the binary-image table lists the images: every index
/// once, ascending by base address.
pub open spec fn spec_sort_order(images: Seq<BinaryImage>) -> Seq<usize> {
    spec_sort_order_up_to(images, images.len() as int)
}

/// Indices in bounds and ascending by the images' base addresses.
pub open spec fn spec_order_sorted(s: Seq<usize>, images: Seq<BinaryImage>) -> bool {
    &&& forall|k: int| 0 <= k < s.len() ==> (#[trigger] s[k]) < images.len()
    &&& forall|i: int, j: int|
        0 <= i < j < s.len() ==> images[(#[trigger] s[i]) as int].base_address <= images[(
        #[trigger] s[j]) as int].base_address
}

/// Inserting an in-bounds index keeps the order sorted and adds exactly
/// that index.
pub proof fn lemma_insert_order(s: Seq<usize>, images: Seq<BinaryImage>, x: usize)
    requires
        spec_order_sorted(s, images),
        x < images.len(),
    ensures
        spec_order_sorted(spec_insert_order(s, images, x), images),
        spec_insert_order(s, images, x).to_multiset() == s.to_multiset().insert(x),
        spec_insert_order(s, images, x).len() == s.len() + 1,
    decreases s.len(),
{
    broadcast use vstd::seq_lib::group_to_multiset_ensures;

    if s.len() == 0 {
        assert(seq![x] =~= Seq::<usize>::empty().push(x));
        assert(Seq::<usize>::empty().to_multiset() =~= Multiset::<usize>::empty());
        assert(seq![x].to_multiset() =~= s.to_multiset().insert(x));
    } else if images[x as int].base_address < images[s.last() as int].base_address {
        assert(spec_order_sorted(s.drop_last(), images));
        lemma_insert_order(s.drop_last(), images, x);
        let t = spec_insert_order(s.drop_last(), images, x);
        assert forall|i: int, j: int| 0 <= i < j < t.push(s.last()).len() implies images[(
        #[trigger] t.push(s.last())[i]) as int].base_address <= images[(#[trigger] t.push(
            s.last(),
        )[j]) as int].base_address by {
            if j < t.len() {
            } else {
                assert(t.to_multiset().contains(t[i]));
                assert(t.to_multiset() == s.drop_last().to_multiset().insert(x));
                if t[i] == x {
                } else {
                    assert(s.drop_last().to_multiset().contains(t[i]));
                    let k = choose|k: int|
                        0 <= k < s.drop_last().len() && s.drop_last()[k] == t[i];
                    assert(s[k] == s.drop_last()[k]);
                    assert(images[s[k] as int].base_address <= images[s.last() as int].base_address);
                }
            }
        }
        assert(s =~= s.drop_last().push(s.last()));
        assert(s.to_multiset() == s.drop_last().to_multiset().insert(s.last()));
        assert(t.push(s.last()).to_multiset() == t.to_multiset().insert(s.last()));
        assert(t.push(s.last()).to_multiset() =~= s.to_multiset().insert(x));
    } else {
        assert forall|i: int, j: int| 0 <= i < j < s.push(x).len() implies images[(#[trigger] s.push(
            x,
        )[i]) as int].base_address <= images[(#[trigger] s.push(x)[j]) as int].base_address by {
            if j < s.len() {
            } else {
                if i < s.len() {
                    assert(images[s[i] as int].base_address <= images[s.last() as int].base_address);
                }
            }
        }
        assert(s.push(x).to_multiset() == s.to_multiset().insert(x));
    }
}

/// The identity order: `0 .. n`.
pub open spec fn spec_identity_order(n: int) -> Seq<usize> {
    Seq::new(n as nat, |i: int| i as usize)
}

/// The table order is an ascending permutation of all the image indices.
pub proof fn lemma_sort_order(images: Seq<BinaryImage>, n: int)
    requires
        0 <= n <= images.len(),
    ensures
        spec_order_sorted(spec_sort_order_up_to(images, n), images),
        spec_sort_order_up_to(images, n).to_multiset() == spec_identity_order(n).to_multiset(),
        spec_sort_order_up_to(images, n).len() == n,
    decreases n,
{
    broadcast use vstd::seq_lib::group_to_multiset_ensures;

    if n <= 0 {
        assert(spec_identity_order(0) =~= Seq::<usize>::empty());
    } else {
        lemma_sort_order(images, n - 1);
        lemma_insert_order(spec_sort_order_up_to(images, n - 1), images, (n - 1) as usize);
        assert(spec_identity_order(n) =~= spec_identity_order(n - 1).push((n - 1) as usize));
        assert(spec_identity_order(n).to_multiset() == spec_identity_order(n - 1).to_multiset()
            .insert((n - 1) as usize));
    }
}

/// Place one index into a sorted order vector, keeping it sorted.
fn insert_order(v: &mut Vec<usize>, images: &Vec<BinaryImage>, x: usize)
    requires
        x < images@.len(),
        forall|k: int| 0 <= k < old(v)@.len() ==> (#[trigger] old(v)@[k]) < images@.len(),
    ensures
        final(v)@ == spec_insert_order(old(v)@, images@, x),
    decreases old(v)@.len(),
{
    let n = v.len();
    if n == 0 {
        v.push(x);
        proof {
            assert(v@ =~= seq![x]);
        }
    } else if images[x].base_address < images[v[n - 1]].base_address {
        let last = v.pop().unwrap();
        insert_order(v, images, x);
        v.push(last);
    } else {
        v.push(x);
    }
}

/// The order in which the image table lists the images: ascending by base
/// address, stable for equal keys.
pub fn sort_image_order(images: &Vec<BinaryImage>) -> (r: Vec<usize>)
    ensures
        r@ == spec_sort_order(images@),
        spec_order_sorted(r@, images@),
        r@.len() == images@.len(),
{
    let mut out: Vec<usize> = Vec::new();
    let mut d: usize = 0;
    while d < images.len()
        invariant
            d <= images@.len(),
            out@ == spec_sort_order_up_to(images@, d as int),
            forall|k: int| 0 <= k < out@.len() ==> (#[trigger] out@[k]) < images@.len(),
        decreases images@.len() - d,
    {
        proof {
            lemma_sort_order(images@, d as int);
            lemma_insert_order(spec_sort_order_up_to(images@, d as int), images@, d);
        }
        insert_order(&mut out, images, d);
        d = d + 1;
    }
    proof {
        lemma_sort_order(images@, images@.len() as int);
    }
    out
}

/// What the calendar rendering of a timestamp is.  The rendering is
/// time-zone-naive, so it is a function of the seconds value alone.
pub uninterp spec fn spec_datetime_display(secs: i64) -> Option<Seq<char>>;

/// Relies on chrono's DateTime::from_timestamp and the naive date-time's
/// Display: the calendar form of a timestamp at second precision, or
/// nothing when the value lies outside the representable range.
#[verifier::external_body]
fn format_timestamp(secs: i64) -> (r: Option<String>)
    ensures
        (match r {
            Some(s) => spec_datetime_display(secs) == Some(s@),
            None => spec_datetime_display(secs) is None,
        }),
{
    chrono::DateTime::from_timestamp(secs, 0).map(|dt| dt.naive_utc().to_string())
}

/// Relies on uuid's Uuid::new_v4: sixteen random bytes for a fresh
/// incident identifier.  Nothing holds of their values.
#[verifier::external_body]
fn random_uuid_bytes() -> (r: Vec<u8>)
    ensures
        r@.len() == 16,
{
    uuid::Uuid::new_v4().as_bytes().to_vec()
}

/// The process path used for the main-executable designator: the recorded
/// path, or the empty string when it is absent.
pub open spec fn spec_ppath(report: CrashReport) -> Seq<char> {
    match report.process_info {
        Some(pi) => match pi.process_path {
            Some(p) => p@,
            None => Seq::<char>::empty(),
        },
        None => Seq::<char>::empty(),
    }
}

fn ppath_of(report: &CrashReport) -> (r: String)
    ensures
        r@ == spec_ppath(*report),
{
    match &report.process_info {
        Some(pi) => match &pi.process_path {
            Some(p) => p.clone(),
            None => String::new(),
        },
        None => String::new(),
    }
}

/// A path with its trailing slashes removed.
pub open spec fn spec_trim_trailing_slashes(s: Seq<char>) -> Seq<char>
    decreases s.len(),
{
    if s.len() > 0 && s.last() == '/' {
        spec_trim_trailing_slashes(s.drop_last())
    } else {
        s
    }
}

proof fn lemma_trim_trailing(s: Seq<char>, end: int)
    requires
        0 <= end <= s.len(),
        forall|k: int| end <= k < s.len() ==> s[k] == '/',
        end > 0 ==> s[end - 1] != '/',
    ensures
        spec_trim_trailing_slashes(s) == s.take(end),
    decreases s.len() - end,
{
    if s.len() == end {
        assert(s.take(end) =~= s);
        if end > 0 {
            assert(s.last() == s[end - 1]);
        }
    } else {
        assert(s.last() == '/');
        lemma_trim_trailing(s.drop_last(), end);
        assert(s.drop_last().take(end) =~= s.take(end));
    }
}

/// The file-name component of a path: the last component once trailing
/// slashes are dropped, or `???` when nothing remains or the path ends in
/// the parent-directory component.
pub open spec fn spec_file_name(s: Seq<char>) -> Seq<char> {
    let t = spec_trim_trailing_slashes(s);
    if t.len() == 0 {
        "???"@
    } else {
        let c = crate::symbolicate::spec_last_component(t);
        if c == ".."@ {
            "???"@
        } else {
            c
        }
    }
}

/// Extract the file-name component of a path for display.
pub fn file_name_of(s: &str) -> (r: String)
    ensures
        r@ == spec_file_name(s@),
{
    let n = s.unicode_len();
    let mut end: usize = n;
    while end > 0 && s.get_char(end - 1) == '/'
        invariant
            end <= n,
            n == s@.len(),
            forall|k: int| end <= k < s@.len() ==> s@[k] == '/',
        decreases end,
    {
        end = end - 1;
    }
    proof {
        lemma_trim_trailing(s@, end as int);
    }
    if end == 0 {
        let r = String::from_str("???");
        r
    } else {
        let t = s.substring_char(0, end);
        let c = crate::symbolicate::last_component(t);
        let parent = String::from_str("..");
        if c == parent {
            String::from_str("???")
        } else {
            c
        }
    }
}

/// The result of looking up the innermost inlined frame for a stack frame:
/// nothing when no image contains the program counter, the image has no
/// valid build identifier, no engine is given, or the engine has no
/// matching resolver; the query error when the resolver fails.
pub open spec fn spec_dsym_frame(
    frame: StackFrame,
    report: CrashReport,
    symbolicate: Option<&Symbolicate>,
) -> Result<Option<Frame>, ErrorKind> {
    match spec_image_index(report.binary_images@, frame.pc) {
        None => Ok(None),
        Some(ix) => {
            let img = report.binary_images@[ix];
            match img.uuid {
                Some(u) => if u@.len() == 16 {
                    match symbolicate {
                        Some(sym) => {
                            let id = spec_build_id(u@);
                            if sym@.contains_key(id) {
                                match sym.spec_frames_lookup(id, (frame.pc - img.base_address) as u64) {
                                    Ok(frames) => Ok(
                                        if frames.len() > 0 {
                                            Some(frames[0])
                                        } else {
                                            None
                                        },
                                    ),
                                    Err(e) => Err(e),
                                }
                            } else {
                                Ok(None)
                            }
                        },
                        None => Ok(None),
                    }
                } else {
                    Ok(None)
                },
                None => Ok(None),
            }
        },
    }
}

/// The symbol name as printed: one leading underscore is stripped when the
/// operating system belongs to the vendor family that adds it.
pub open spec fn spec_stripped_symbol(name: Seq<char>, os: OperatingSystem) -> Seq<char> {
    if name.len() > 1 && name[0] == '_' && (os == OperatingSystem::MacOsX || os
        == OperatingSystem::IphoneOs || os == OperatingSystem::IphoneSimulator) {
        name.skip(1)
    } else {
        name
    }
}

fn stripped_symbol(name: &str, os: OperatingSystem) -> (r: String)
    ensures
        r@ == spec_stripped_symbol(name@, os),
{
    let n = name.unicode_len();
    let strip = n > 1 && name.get_char(0) == '_' && (match os {
        OperatingSystem::MacOsX => true,
        OperatingSystem::IphoneOs => true,
        OperatingSystem::IphoneSimulator => true,
        OperatingSystem::Unknown => false,
    });
    if strip {
        let t = name.substring_char(1, n);
        proof {
            assert(t@ =~= name@.skip(1));
        }
        t.to_owned()
    } else {
        name.to_owned()
    }
}

/// The symbol part of a rendered frame line.  With a symbol: the stripped
/// name, the decimal offset of the counter from the symbol start
/// (wrapping), and the resolved location in parentheses when one is known.
/// Without a symbol: the image base in minimal hexadecimal, the decimal
/// offset from the base, and the resolved frame's display when one is
/// known.
pub open spec fn spec_symbol_string(
    frame: StackFrame,
    report: CrashReport,
    base_address: u64,
    pc_offset: u64,
    dsym_frame: Option<Frame>,
) -> Seq<char> {
    match frame.symbol {
        Some(sym) => {
            let name = spec_stripped_symbol(sym.name@, report.system_info.operating_system);
            let off = vstd::wrapping::u64_specs::wrapping_sub(frame.pc, sym.start_address);
            let suffix = match dsym_frame {
                Some(df) => match df.location {
                    Some(loc) => " ("@ + loc.spec_display() + ")"@,
                    None => Seq::<char>::empty(),
                },
                None => Seq::<char>::empty(),
            };
            name + " + "@ + spec_dec(off as nat) + suffix
        },
        None => {
            let suffix = match dsym_frame {
                Some(df) => " "@ + df.spec_display(),
                None => Seq::<char>::empty(),
            };
            "0x"@ + spec_hex_w(base_address as nat, 1) + " + "@ + spec_dec(pc_offset as nat)
                + suffix
        },
    }
}

/// The absolute program-counter field: sixteen zero-padded hexadecimal
/// digits after `0x` at 64-bit width, or the minimal `0x` form right
/// aligned to ten characters at 32-bit width.
pub open spec fn spec_pc_field(pc: u64, lp64: bool) -> Seq<char> {
    if lp64 {
        "0x"@ + spec_hex_w(pc as nat, 16)
    } else {
        spec_hex_0x_right_align(pc as nat, 10)
    }
}

/// Address-width consistency: whatever the counter value, the rendered
/// program-counter field is exactly eighteen characters wide at the 64-bit
/// address-width class, and exactly ten at the 32-bit class for values
/// that fit in 32 bits.
pub proof fn lemma_pc_field_width(pc: u64)
    ensures
        spec_pc_field(pc, true).len() == 18,
        pc < 0x100000000 ==> spec_pc_field(pc, false).len() == 10,
{
    reveal_strlit("0x");
    crate::textfmt::lemma_u64_fits_16_digits(pc);
    if pc < 0x100000000 {
        crate::textfmt::lemma_hex_w1_len(pc as nat, 1);
        assert(crate::textfmt::spec_pow16(8) == 0x100000000) by {
            assert(crate::textfmt::spec_pow16(0nat) == 1);
            assert(crate::textfmt::spec_pow16(1nat) == 0x10);
            assert(crate::textfmt::spec_pow16(2nat) == 0x100);
            assert(crate::textfmt::spec_pow16(3nat) == 0x1000);
            assert(crate::textfmt::spec_pow16(4nat) == 0x10000);
            assert(crate::textfmt::spec_pow16(5nat) == 0x100000);
            assert(crate::textfmt::spec_pow16(6nat) == 0x1000000);
            assert(crate::textfmt::spec_pow16(7nat) == 0x10000000);
        }
        crate::textfmt::lemma_hex_len_le(pc as nat, 8);
    }
}

fn pc_field(pc: u64, lp64: bool) -> (r: String)
    ensures
        r@ == spec_pc_field(pc, lp64),
{
    if lp64 {
        let mut r = String::from_str("0x");
        let digits = hex_w(pc, 16);
        r.append(digits.as_str());
        r
    } else {
        hex_0x_right_align(pc, 10)
    }
}

/// One rendered stack-frame line, without its newline: the zero-based
/// index left-aligned to four, the owning image's file name left-aligned
/// to thirty-five, a space, the counter, a space, and the symbol string.
pub open spec fn spec_format_stack_frame(
    frame: StackFrame,
    idx: int,
    report: CrashReport,
    lp64: bool,
    symbolicate: Option<&Symbolicate>,
) -> Result<Seq<char>, ErrorKind> {
    let (image_name, base_address, pc_offset) = match spec_image_index(
        report.binary_images@,
        frame.pc,
    ) {
        Some(ix) => {
            let img = report.binary_images@[ix];
            (spec_file_name(img.name@), img.base_address, (frame.pc - img.base_address) as u64)
        },
        None => ("???"@, 0u64, 0u64),
    };
    match spec_dsym_frame(frame, report, symbolicate) {
        Err(e) => Err(e),
        Ok(df) => Ok(
            spec_left_align(spec_dec(idx as nat), 4) + spec_left_align(image_name, 35) + " "@
                + spec_pc_field(frame.pc, lp64) + " "@ + spec_symbol_string(
                frame,
                report,
                base_address,
                pc_offset,
                df,
            ),
        ),
    }
}

/// Render one stack frame line (no trailing newline).
pub fn format_stack_frame(
    frame: &StackFrame,
    idx: usize,
    report: &CrashReport,
    lp64: bool,
    symbolicate: Option<&Symbolicate>,
) -> (r: Result<String, ErrorKind>)
    ensures
        (match r {
            Ok(s) => spec_format_stack_frame(*frame, idx as int, *report, lp64, symbolicate)
                == Ok::<Seq<char>, ErrorKind>(s@),
            Err(e) => spec_format_stack_frame(*frame, idx as int, *report, lp64, symbolicate)
                == Err::<Seq<char>, ErrorKind>(e),
        }),
{
    let mut image_name = String::from_str("???");
    let mut base_address: u64 = 0;
    let mut pc_offset: u64 = 0;
    let mut dsym_frame: Option<Frame> = None;
    match image_for_address(report, frame.pc) {
        Some(img) => {
            image_name = file_name_of(img.name.as_str());
            base_address = img.base_address;
            pc_offset = frame.pc - img.base_address;
            match &img.uuid {
                Some(u) => {
                    if u.len() == 16 {
                        match symbolicate {
                            Some(sym) => {
                                let id = crate::symbolicate::build_id_from_bytes(u.as_slice());
                                match sym.get(&id) {
                                    Some(_) => {
                                        match sym.frames(&id, pc_offset) {
                                            Ok(fr) => {
                                                if fr.len() > 0 {
                                                    let mut v = fr.into_vec();
                                                    dsym_frame = Some(v.remove(0));
                                                }
                                            },
                                            Err(e) => {
                                                return Err(e);
                                            },
                                        }
                                    },
                                    None => {},
                                }
                            },
                            None => {},
                        }
                    }
                },
                None => {},
            }
        },
        None => {},
    }
    let sym_string = symbol_string(frame, report, base_address, pc_offset, &dsym_frame);
    let mut line = left_align(dec_u64(idx as u64).as_str(), 4);
    let aligned_name = left_align(image_name.as_str(), 35);
    line.append(aligned_name.as_str());
    line.append(" ");
    let pc_str = pc_field(frame.pc, lp64);
    line.append(pc_str.as_str());
    line.append(" ");
    line.append(sym_string.as_str());
    Ok(line)
}

/// Render the symbol part of one frame line, from the frame itself, the
/// owning image's base address and relative offset, and whatever the
/// resolver answered for that offset.
pub fn symbol_string(
    frame: &StackFrame,
    report: &CrashReport,
    base_address: u64,
    pc_offset: u64,
    dsym_frame: &Option<Frame>,
) -> (r: String)
    ensures
        r@ == spec_symbol_string(*frame, *report, base_address, pc_offset, *dsym_frame),
{
    match &frame.symbol {
        Some(sym) => {
            let mut r = stripped_symbol(
                sym.name.as_str(),
                report.system_info.operating_system,
            );
            r.append(" + ");
            let off = frame.pc.wrapping_sub(sym.start_address);
            let dec = dec_u64(off);
            r.append(dec.as_str());
            match dsym_frame {
                Some(df) => {
                    match &df.location {
                        Some(loc) => {
                            r.append(" (");
                            let ls = loc.display_string();
                            r.append(ls.as_str());
                            r.append(")");
                        },
                        None => {},
                    }
                },
                None => {},
            }
            proof {
                assert(r@ =~= spec_symbol_string(
                    *frame,
                    *report,
                    base_address,
                    pc_offset,
                    *dsym_frame,
                ));
            }
            r
        },
        None => {
            let mut r = String::from_str("0x");
            let hx = hex_w(base_address, 1);
            r.append(hx.as_str());
            r.append(" + ");
            let dec = dec_u64(pc_offset);
            r.append(dec.as_str());
            match dsym_frame {
                Some(df) => {
                    r.append(" ");
                    let ds = df.display_string();
                    r.append(ds.as_str());
                },
                None => {},
            }
            proof {
                assert(r@ =~= spec_symbol_string(
                    *frame,
                    *report,
                    base_address,
                    pc_offset,
                    *dsym_frame,
                ));
            }
            r
        },
    }
}


/// Append a rendered piece to an accumulated prefix, passing errors on.
pub open spec fn spec_concat_result(prefix: Seq<char>, r: Result<Seq<char>, ErrorKind>) -> Result<
    Seq<char>,
    ErrorKind,
> {
    match r {
        Ok(t) => Ok(prefix + t),
        Err(e) => Err(e),
    }
}

/// The rendered frame lines from position `i` on, one line and newline per
/// frame; the first resolution error aborts the whole rendering.
pub open spec fn spec_frame_lines(
    frames: Seq<StackFrame>,
    i: int,
    report: CrashReport,
    lp64: bool,
    symbolicate: Option<&Symbolicate>,
) -> Result<Seq<char>, ErrorKind>
    decreases frames.len() - i,
{
    if i < 0 || i >= frames.len() {
        Ok(Seq::<char>::empty())
    } else {
        match spec_format_stack_frame(frames[i], i, report, lp64, symbolicate) {
            Err(e) => Err(e),
            Ok(line) => match spec_frame_lines(frames, i + 1, report, lp64, symbolicate) {
                Err(e) => Err(e),
                Ok(rest) => Ok(line + nl() + rest),
            },
        }
    }
}

/// Render the frames of one list, one line each.
fn frame_lines(
    frames: &Vec<StackFrame>,
    report: &CrashReport,
    lp64: bool,
    symbolicate: Option<&Symbolicate>,
) -> (r: Result<String, ErrorKind>)
    ensures
        (match r {
            Ok(s) => spec_frame_lines(frames@, 0, *report, lp64, symbolicate) == Ok::<
                Seq<char>,
                ErrorKind,
            >(s@),
            Err(e) => spec_frame_lines(frames@, 0, *report, lp64, symbolicate) == Err::<
                Seq<char>,
                ErrorKind,
            >(e),
        }),
{
    let mut acc = String::new();
    let mut i: usize = 0;
    while i < frames.len()
        invariant
            i <= frames@.len(),
            spec_frame_lines(frames@, 0, *report, lp64, symbolicate) == spec_concat_result(
                acc@,
                spec_frame_lines(frames@, i as int, *report, lp64, symbolicate),
            ),
        decreases frames@.len() - i,
    {
        let ghost acc0 = acc@;
        match format_stack_frame(&frames[i], i, report, lp64, symbolicate) {
            Ok(line) => {
                acc.append(line.as_str());
                acc.append("\n");
                proof {
                    reveal_strlit("\n");
                    let from_next = spec_frame_lines(
                        frames@,
                        i as int + 1,
                        *report,
                        lp64,
                        symbolicate,
                    );
                    match from_next {
                        Ok(rest) => {
                            assert(acc0 + (line@ + nl() + rest) =~= acc@ + rest);
                        },
                        Err(_) => {},
                    }
                }
            },
            Err(e) => {
                return Err(e);
            },
        }
        i = i + 1;
    }
    proof {
        assert(acc@ + Seq::<char>::empty() =~= acc@);
    }
    Ok(acc)
}

/// The embedded report identifier, when it is present and well-formed.
pub open spec fn spec_embedded_uuid(report: CrashReport) -> Option<Seq<u8>> {
    match report.report_info.uuid {
        Some(u) => if u@.len() == 16 {
            Some(u@)
        } else {
            None
        },
        None => None,
    }
}

/// The header block: the incident identifier, the placeholder reporter
/// key, and the hardware model (or `???`).
pub open spec fn spec_header_block(report: CrashReport, id: Seq<u8>) -> Seq<char> {
    "Incident Identifier: "@ + spec_uuid_hyphenated(id) + nl() + "CrashReporter Key:   ???"@ + nl()
        + "Hardware Model:      "@ + (match report.machine_info {
        Some(mi) => spec_opt_str(mi.model),
        None => "???"@,
    }) + nl()
}

fn header_block(report: &CrashReport, id: &[u8]) -> (r: String)
    requires
        id@.len() == 16,
    ensures
        r@ == spec_header_block(*report, id@),
{
    let mut r = String::from_str("Incident Identifier: ");
    let uu = uuid_hyphenated(id);
    r.append(uu.as_str());
    r.append("\n");
    r.append("CrashReporter Key:   ???");
    r.append("\n");
    r.append("Hardware Model:      ");
    match &report.machine_info {
        Some(mi) => match &mi.model {
            Some(m) => r.append(m.as_str()),
            None => r.append("???"),
        },
        None => r.append("???"),
    }
    r.append("\n");
    proof {
        reveal_strlit("\n");
        assert(r@ =~= spec_header_block(*report, id@));
    }
    r
}

/// The process and application block, closed by a blank line.
pub open spec fn spec_process_block(report: CrashReport, code_label: &'static str) -> Seq<char> {
    let (pname, pid, ppath, parent, parent_pid) = match report.process_info {
        Some(pi) => (
            spec_opt_str(pi.process_name),
            spec_opt_dec(pi.process_id),
            spec_opt_str(pi.process_path),
            spec_opt_str(pi.parent_process_name),
            spec_opt_dec(pi.parent_process_id),
        ),
        None => ("???"@, "???"@, "???"@, "???"@, "???"@),
    };
    "Process:         "@ + pname + " ["@ + pid + "]"@ + nl() + "Path:            "@ + ppath + nl()
        + "Identifier:      "@ + report.application_info.identifier@ + nl()
        + "Version:         "@ + report.application_info.version@ + nl() + "Code Type:       "@
        + code_label@ + nl() + "Parent Process:  "@ + parent + " ["@ + parent_pid + "]"@ + nl()
        + nl()
}

fn opt_str_field(o: &Option<String>) -> (r: String)
    ensures
        r@ == spec_opt_str(*o),
{
    match o {
        Some(s) => s.clone(),
        None => String::from_str("???"),
    }
}

fn opt_dec_field(o: &Option<u64>) -> (r: String)
    ensures
        r@ == spec_opt_dec(*o),
{
    match o {
        Some(v) => dec_u64(*v),
        None => String::from_str("???"),
    }
}

fn process_block(report: &CrashReport, code_label: &'static str) -> (r: String)
    ensures
        r@ == spec_process_block(*report, code_label),
{
    let unknown = String::from_str("???");
    let (pname, pid, ppath, parent, parent_pid) = match &report.process_info {
        Some(pi) => (
            opt_str_field(&pi.process_name),
            opt_dec_field(&pi.process_id),
            opt_str_field(&pi.process_path),
            opt_str_field(&pi.parent_process_name),
            opt_dec_field(&pi.parent_process_id),
        ),
        None => (
            unknown.clone(),
            unknown.clone(),
            unknown.clone(),
            unknown.clone(),
            unknown.clone(),
        ),
    };
    let mut r = String::from_str("Process:         ");
    r.append(pname.as_str());
    r.append(" [");
    r.append(pid.as_str());
    r.append("]");
    r.append("\n");
    r.append("Path:            ");
    r.append(ppath.as_str());
    r.append("\n");
    r.append("Identifier:      ");
    r.append(report.application_info.identifier.as_str());
    r.append("\n");
    r.append("Version:         ");
    r.append(report.application_info.version.as_str());
    r.append("\n");
    r.append("Code Type:       ");
    r.append(code_label);
    r.append("\n");
    r.append("Parent Process:  ");
    r.append(parent.as_str());
    r.append(" [");
    r.append(parent_pid.as_str());
    r.append("]");
    r.append("\n");
    r.append("\n");
    proof {
        reveal_strlit("\n");
        reveal_strlit("???");
        assert(r@ =~= spec_process_block(*report, code_label));
    }
    r
}

/// The date-time field: the calendar form of a positive timestamp, `???`
/// when the timestamp is zero, negative, or out of range.
pub open spec fn spec_datetime_field(ts: i64) -> Seq<char> {
    if ts > 0 {
        match spec_datetime_display(ts) {
            Some(s) => s,
            None => "???"@,
        }
    } else {
        "???"@
    }
}

/// The system block: date-time, OS version line, and the fixed report
/// version, closed by a blank line.
pub open spec fn spec_system_block(report: CrashReport) -> Seq<char> {
    "Date/Time:       "@ + spec_datetime_field(report.system_info.timestamp) + nl()
        + "OS Version:      "@ + spec_os_name(report.system_info.operating_system)@ + " "@
        + report.system_info.os_version@ + " ("@ + spec_opt_str(report.system_info.os_build) + ")"@
        + nl() + "Report Version:  104"@ + nl() + nl()
}

fn system_block(report: &CrashReport) -> (r: String)
    ensures
        r@ == spec_system_block(*report),
{
    let mut r = String::from_str("Date/Time:       ");
    let ts = report.system_info.timestamp;
    if ts > 0 {
        match format_timestamp(ts) {
            Some(s) => r.append(s.as_str()),
            None => r.append("???"),
        }
    } else {
        r.append("???");
    }
    r.append("\n");
    r.append("OS Version:      ");
    r.append(os_name(report.system_info.operating_system));
    r.append(" ");
    r.append(report.system_info.os_version.as_str());
    r.append(" (");
    let build = opt_str_field(&report.system_info.os_build);
    r.append(build.as_str());
    r.append(")");
    r.append("\n");
    r.append("Report Version:  104");
    r.append("\n");
    r.append("\n");
    proof {
        reveal_strlit("\n");
        reveal_strlit("???");
        reveal_strlit(" ");
        assert(r@ =~= spec_system_block(*report));
    }
    r
}

/// The number of the first thread flagged crashed.
pub open spec fn spec_first_crashed(threads: Seq<Thread>) -> Option<u64>
    decreases threads.len(),
{
    if threads.len() == 0 {
        None
    } else if threads[0].crashed {
        Some(threads[0].thread_number)
    } else {
        spec_first_crashed(threads.skip(1))
    }
}

fn first_crashed(threads: &Vec<Thread>) -> (r: Option<u64>)
    ensures
        r == spec_first_crashed(threads@),
{
    proof {
        assert(threads@.skip(0) =~= threads@);
    }
    let mut i: usize = 0;
    while i < threads.len()
        invariant
            i <= threads@.len(),
            spec_first_crashed(threads@) == spec_first_crashed(threads@.skip(i as int)),
        decreases threads@.len() - i,
    {
        proof {
            assert(threads@.skip(i as int)[0] == threads@[i as int]);
            assert(threads@.skip(i as int).skip(1) =~= threads@.skip(i as int + 1));
        }
        if threads[i].crashed {
            return Some(threads[i].thread_number);
        }
        i = i + 1;
    }
    None
}

/// The exception line block: signal name, signal code with the fault
/// address, the crashed-thread line when one thread crashed, then a blank
/// line.
pub open spec fn spec_exception_code_block(report: CrashReport) -> Seq<char> {
    "Exception Type:  "@ + report.signal.name@ + nl() + "Exception Codes: "@ + report.signal.code@
        + " at 0x"@ + spec_hex_w(report.signal.address as nat, 1) + nl() + (match spec_first_crashed(
        report.threads@,
    ) {
        Some(n) => "Crashed Thread: "@ + spec_dec(n as nat) + nl(),
        None => Seq::<char>::empty(),
    }) + nl()
}

fn exception_code_block(report: &CrashReport) -> (r: String)
    ensures
        r@ == spec_exception_code_block(*report),
{
    let mut r = String::from_str("Exception Type:  ");
    r.append(report.signal.name.as_str());
    r.append("\n");
    r.append("Exception Codes: ");
    r.append(report.signal.code.as_str());
    r.append(" at 0x");
    let hx = hex_w(report.signal.address, 1);
    r.append(hx.as_str());
    r.append("\n");
    match first_crashed(&report.threads) {
        Some(n) => {
            r.append("Crashed Thread: ");
            let dn = dec_u64(n);
            r.append(dn.as_str());
            r.append("\n");
        },
        None => {},
    }
    r.append("\n");
    proof {
        reveal_strlit("\n");
        assert(r@ =~= spec_exception_code_block(*report));
    }
    r
}

/// The uncaught-exception block, present when the report carries one.
pub open spec fn spec_uncaught_block(report: CrashReport) -> Seq<char> {
    match report.exception {
        Some(ex) => "Application Specific Information:"@ + nl()
            + "*** Terminating app due to uncaught exception '"@ + ex.name@ + "', reason: '"@
            + ex.reason@ + "'"@ + nl() + nl(),
        None => Seq::<char>::empty(),
    }
}

fn uncaught_block(report: &CrashReport) -> (r: String)
    ensures
        r@ == spec_uncaught_block(*report),
{
    let mut r = String::new();
    match &report.exception {
        Some(ex) => {
            r.append("Application Specific Information:");
            r.append("\n");
            r.append("*** Terminating app due to uncaught exception '");
            r.append(ex.name.as_str());
            r.append("', reason: '");
            r.append(ex.reason.as_str());
            r.append("'");
            r.append("\n");
            r.append("\n");
        },
        None => {},
    }
    proof {
        reveal_strlit("\n");
        assert(r@ =~= spec_uncaught_block(*report));
    }
    r
}

/// The exception backtrace block, present when the uncaught exception
/// carries frames of its own.
pub open spec fn spec_backtrace_block(
    report: CrashReport,
    lp64: bool,
    symbolicate: Option<&Symbolicate>,
) -> Result<Seq<char>, ErrorKind> {
    match report.exception {
        Some(ex) => if ex.frames@.len() > 0 {
            match spec_frame_lines(ex.frames@, 0, report, lp64, symbolicate) {
                Err(e) => Err(e),
                Ok(lines) => Ok("Last Exception Backtrace:"@ + nl() + lines + nl()),
            }
        } else {
            Ok(Seq::<char>::empty())
        },
        None => Ok(Seq::<char>::empty()),
    }
}

fn backtrace_block(
    report: &CrashReport,
    lp64: bool,
    symbolicate: Option<&Symbolicate>,
) -> (r: Result<String, ErrorKind>)
    ensures
        (match r {
            Ok(s) => spec_backtrace_block(*report, lp64, symbolicate) == Ok::<Seq<char>, ErrorKind>(
                s@,
            ),
            Err(e) => spec_backtrace_block(*report, lp64, symbolicate) == Err::<
                Seq<char>,
                ErrorKind,
            >(e),
        }),
{
    let mut r = String::new();
    match &report.exception {
        Some(ex) => {
            if ex.frames.len() > 0 {
                match frame_lines(&ex.frames, report, lp64, symbolicate) {
                    Ok(lines) => {
                        r.append("Last Exception Backtrace:");
                        r.append("\n");
                        r.append(lines.as_str());
                        r.append("\n");
                    },
                    Err(e) => {
                        return Err(e);
                    },
                }
            }
        },
        None => {},
    }
    proof {
        reveal_strlit("\n");
        assert(spec_backtrace_block(*report, lp64, symbolicate) == Ok::<Seq<char>, ErrorKind>(r@))
            by {
            match spec_backtrace_block(*report, lp64, symbolicate) {
                Ok(t) => {
                    assert(r@ =~= t);
                },
                Err(_) => {},
            }
        }
    }
    Ok(r)
}

/// The thread blocks from thread `t` on: a header line naming the thread
/// (marked `Crashed` when flagged), its frames, and a blank line.
pub open spec fn spec_thread_blocks(
    threads: Seq<Thread>,
    t: int,
    report: CrashReport,
    lp64: bool,
    symbolicate: Option<&Symbolicate>,
) -> Result<Seq<char>, ErrorKind>
    decreases threads.len() - t,
{
    if t < 0 || t >= threads.len() {
        Ok(Seq::<char>::empty())
    } else {
        let header = "Thread "@ + spec_dec(threads[t].thread_number as nat) + (if threads[t].crashed {
            " Crashed:"@
        } else {
            ":"@
        }) + nl();
        match spec_frame_lines(threads[t].frames@, 0, report, lp64, symbolicate) {
            Err(e) => Err(e),
            Ok(lines) => match spec_thread_blocks(threads, t + 1, report, lp64, symbolicate) {
                Err(e) => Err(e),
                Ok(rest) => Ok(header + lines + nl() + rest),
            },
        }
    }
}

#[verifier::rlimit(80)]
fn thread_blocks(
    report: &CrashReport,
    lp64: bool,
    symbolicate: Option<&Symbolicate>,
) -> (r: Result<String, ErrorKind>)
    ensures
        (match r {
            Ok(s) => spec_thread_blocks(report.threads@, 0, *report, lp64, symbolicate) == Ok::<
                Seq<char>,
                ErrorKind,
            >(s@),
            Err(e) => spec_thread_blocks(report.threads@, 0, *report, lp64, symbolicate) == Err::<
                Seq<char>,
                ErrorKind,
            >(e),
        }),
{
    let threads = &report.threads;
    let mut acc = String::new();
    let mut t: usize = 0;
    while t < threads.len()
        invariant
            t <= threads@.len(),
            threads@ == report.threads@,
            spec_thread_blocks(threads@, 0, *report, lp64, symbolicate) == spec_concat_result(
                acc@,
                spec_thread_blocks(threads@, t as int, *report, lp64, symbolicate),
            ),
        decreases threads@.len() - t,
    {
        let ghost acc0 = acc@;
        let thread = &threads[t];
        acc.append("Thread ");
        let dn = dec_u64(thread.thread_number);
        acc.append(dn.as_str());
        if thread.crashed {
            acc.append(" Crashed:");
        } else {
            acc.append(":");
        }
        acc.append("\n");
        let ghost header = "Thread "@ + spec_dec(thread.thread_number as nat) + (
        if thread.crashed {
            " Crashed:"@
        } else {
            ":"@
        }) + nl();
        proof {
            reveal_strlit("\n");
            assert(acc@ =~= acc0 + header);
        }
        match frame_lines(&thread.frames, report, lp64, symbolicate) {
            Ok(lines) => {
                acc.append(lines.as_str());
                acc.append("\n");
                proof {
                    reveal_strlit("\n");
                    let from_next = spec_thread_blocks(
                        threads@,
                        t as int + 1,
                        *report,
                        lp64,
                        symbolicate,
                    );
                    match from_next {
                        Ok(rest) => {
                            assert(acc0 + (header + lines@ + nl() + rest) =~= acc@ + rest);
                        },
                        Err(_) => {},
                    }
                }
            },
            Err(e) => {
                return Err(e);
            },
        }
        t = t + 1;
    }
    proof {
        assert(acc@ + Seq::<char>::empty() =~= acc@);
    }
    Ok(acc)
}

/// The register name as printed: the frame-pointer-adjacent register of
/// the 32-bit RISC family is shown under its vendor short name when the
/// machine's processor encoding is the recognized kind.
pub open spec fn spec_reg_name(report: CrashReport, name: Seq<char>) -> Seq<char> {
    match report.machine_info {
        Some(mi) => if mi.processor.encoding == TypeEncoding::Mach && (mi.processor.cpu_type
            & 0xffffffff00ffffffu64) == machine::CPU_TYPE_ARM && name == "r12"@ {
            "ip"@
        } else {
            name
        },
        None => name,
    }
}

fn reg_name_of(report: &CrashReport, name: &String) -> (r: String)
    ensures
        r@ == spec_reg_name(*report, name@),
{
    let r12 = String::from_str("r12");
    match &report.machine_info {
        Some(mi) => {
            if mi.processor.encoding == TypeEncoding::Mach && (mi.processor.cpu_type
                & 0xffffffff00ffffff) == machine::CPU_TYPE_ARM && *name == r12 {
                String::from_str("ip")
            } else {
                name.clone()
            }
        },
        None => name.clone(),
    }
}

/// One register entry: the (possibly remapped) name left-aligned to six, a
/// colon, the value zero-padded to the document's address width, and a
/// trailing space.
pub open spec fn spec_reg_entry(report: CrashReport, reg: RegisterValue, lp64: bool) -> Seq<char> {
    spec_left_align(spec_reg_name(report, reg.name@), 6) + ": 0x"@ + spec_hex_w(
        reg.value as nat,
        if lp64 {
            16
        } else {
            8
        },
    ) + " "@
}

/// The register entries from position `i` on, four to a line.
pub open spec fn spec_reg_lines(
    regs: Seq<RegisterValue>,
    i: int,
    report: CrashReport,
    lp64: bool,
) -> Seq<char>
    decreases regs.len() - i,
{
    if i < 0 || i >= regs.len() {
        Seq::<char>::empty()
    } else {
        spec_reg_entry(report, regs[i], lp64) + (if i % 4 == 3 {
            nl()
        } else {
            Seq::<char>::empty()
        }) + spec_reg_lines(regs, i + 1, report, lp64)
    }
}

/// The thread flagged crashed that the register dump belongs to: the last
/// one in report order.
pub open spec fn spec_last_crashed(threads: Seq<Thread>) -> Option<Thread>
    decreases threads.len(),
{
    if threads.len() == 0 {
        None
    } else if threads.last().crashed {
        Some(threads.last())
    } else {
        spec_last_crashed(threads.drop_last())
    }
}

fn last_crashed_index(threads: &Vec<Thread>) -> (r: Option<usize>)
    ensures
        (match r {
            Some(i) => i < threads@.len() && spec_last_crashed(threads@) == Some(
                threads@[i as int],
            ),
            None => spec_last_crashed(threads@) is None,
        }),
{
    proof {
        assert(threads@.take(threads@.len() as int) =~= threads@);
    }
    let mut i: usize = threads.len();
    while i > 0
        invariant
            i <= threads@.len(),
            spec_last_crashed(threads@) == spec_last_crashed(threads@.take(i as int)),
        decreases i,
    {
        proof {
            assert(threads@.take(i as int).drop_last() =~= threads@.take(i as int - 1));
            assert(threads@.take(i as int).last() == threads@[i as int - 1]);
        }
        if threads[i - 1].crashed {
            return Some(i - 1);
        }
        i = i - 1;
    }
    None
}

/// The register block: present when some thread crashed, four entries per
/// line, a closing newline for a partial last line, then a blank line.
pub open spec fn spec_register_block(
    report: CrashReport,
    code_label: &'static str,
    lp64: bool,
) -> Seq<char> {
    match spec_last_crashed(report.threads@) {
        Some(thread) => "Thread "@ + spec_dec(thread.thread_number as nat) + " crashed with "@
            + code_label@ + " Thread State:"@ + nl() + spec_reg_lines(
            thread.registers@,
            0,
            report,
            lp64,
        ) + (if thread.registers@.len() % 4 != 0 {
            nl()
        } else {
            Seq::<char>::empty()
        }) + nl(),
        None => Seq::<char>::empty(),
    }
}

fn register_block(report: &CrashReport, code_label: &'static str, lp64: bool) -> (r: String)
    ensures
        r@ == spec_register_block(*report, code_label, lp64),
{
    let mut r = String::new();
    match last_crashed_index(&report.threads) {
        Some(ti) => {
            let thread = &report.threads[ti];
            r.append("Thread ");
            let dn = dec_u64(thread.thread_number);
            r.append(dn.as_str());
            r.append(" crashed with ");
            r.append(code_label);
            r.append(" Thread State:");
            r.append("\n");
            let ghost header = r@;
            proof {
                reveal_strlit("\n");
                assert(header =~= "Thread "@ + spec_dec(thread.thread_number as nat)
                    + " crashed with "@ + code_label@ + " Thread State:"@ + nl());
            }
            let regs = &thread.registers;
            let mut i: usize = 0;
            while i < regs.len()
                invariant
                    i <= regs@.len(),
                    regs@ == report.threads@[ti as int].registers@,
                    ti < report.threads@.len(),
                    header + spec_reg_lines(regs@, 0, *report, lp64) == r@ + spec_reg_lines(
                        regs@,
                        i as int,
                        *report,
                        lp64,
                    ),
                decreases regs@.len() - i,
            {
                let ghost r0 = r@;
                let name = reg_name_of(report, &regs[i].name);
                let aligned = left_align(name.as_str(), 6);
                r.append(aligned.as_str());
                r.append(": 0x");
                let hx = hex_w(regs[i].value, if lp64 { 16 } else { 8 });
                r.append(hx.as_str());
                r.append(" ");
                if i % 4 == 3 {
                    r.append("\n");
                }
                proof {
                    reveal_strlit("\n");
                    let entry = spec_reg_entry(*report, regs@[i as int], lp64);
                    let sep = if i % 4 == 3 {
                        nl()
                    } else {
                        Seq::<char>::empty()
                    };
                    assert(r@ =~= r0 + (entry + sep));
                    assert(r0 + (entry + sep) + spec_reg_lines(regs@, i as int + 1, *report, lp64)
                        =~= r0 + spec_reg_lines(regs@, i as int, *report, lp64));
                }
                i = i + 1;
            }
            proof {
                assert(r@ + Seq::<char>::empty() =~= r@);
                assert(r@ =~= header + spec_reg_lines(regs@, 0, *report, lp64));
            }
            if regs.len() % 4 != 0 {
                r.append("\n");
            }
            r.append("\n");
        },
        None => {},
    }
    proof {
        reveal_strlit("\n");
        assert(r@ =~= spec_register_block(*report, code_label, lp64));
    }
    r
}


/// One line of the binary-image table: the inclusive address range, the
/// main-executable designator, the file name, the architecture, the build
/// identifier, and the full path.
pub open spec fn spec_image_line(
    images: Seq<BinaryImage>,
    k: usize,
    report: CrashReport,
    lp64: bool,
) -> Seq<char> {
    let img = images[k as int];
    let w: nat = if lp64 {
        18
    } else {
        10
    };
    let endaddr = vstd::wrapping::u64_specs::wrapping_sub(
        vstd::wrapping::u64_specs::wrapping_add(
            img.base_address,
            if img.size >= 1 {
                img.size
            } else {
                1
            },
        ),
        1,
    );
    let arch = match img.code_type {
        Some(p) => if p.encoding == TypeEncoding::Mach {
            machine::spec_arch_name(p.cpu_type, p.cpu_subtype)@
        } else {
            "???"@
        },
        None => "???"@,
    };
    let uuid = match img.uuid {
        Some(u) => if u@.len() == 16 {
            spec_uuid_hyphenated(u@)
        } else {
            "???"@
        },
        None => "???"@,
    };
    let designator = if img.name@ == spec_ppath(report) {
        "+"@
    } else {
        " "@
    };
    spec_hex_0x_right_align(img.base_address as nat, w) + " - "@ + spec_hex_0x_right_align(
        endaddr as nat,
        w,
    ) + " "@ + designator + spec_file_name(img.name@) + " "@ + arch + "  <"@ + uuid + "> "@
        + img.name@ + nl()
}

fn image_line(report: &CrashReport, k: usize, lp64: bool) -> (r: String)
    requires
        k < report.binary_images@.len(),
    ensures
        r@ == spec_image_line(report.binary_images@, k, *report, lp64),
{
    let img = &report.binary_images[k];
    let w: usize = if lp64 {
        18
    } else {
        10
    };
    let mut r = hex_0x_right_align(img.base_address, w);
    r.append(" - ");
    let m1 = if img.size >= 1 {
        img.size
    } else {
        1
    };
    let endaddr = img.base_address.wrapping_add(m1).wrapping_sub(1);
    let ea = hex_0x_right_align(endaddr, w);
    r.append(ea.as_str());
    r.append(" ");
    let ppath = ppath_of(report);
    if img.name == ppath {
        r.append("+");
    } else {
        r.append(" ");
    }
    let fname = file_name_of(img.name.as_str());
    r.append(fname.as_str());
    r.append(" ");
    match &img.code_type {
        Some(p) => {
            if p.encoding == TypeEncoding::Mach {
                r.append(machine::arch_name_of(p.cpu_type, p.cpu_subtype));
            } else {
                r.append("???");
            }
        },
        None => {
            r.append("???");
        },
    }
    r.append("  <");
    match &img.uuid {
        Some(u) => {
            if u.len() == 16 {
                let us = uuid_hyphenated(u.as_slice());
                r.append(us.as_str());
            } else {
                r.append("???");
            }
        },
        None => {
            r.append("???");
        },
    }
    r.append("> ");
    r.append(img.name.as_str());
    r.append("\n");
    proof {
        reveal_strlit("\n");
        reveal_strlit("???");
        assert(r@ =~= spec_image_line(report.binary_images@, k, *report, lp64));
    }
    r
}

/// The image-table lines in table order, from position `j` on.
pub open spec fn spec_image_lines(
    order: Seq<usize>,
    j: int,
    report: CrashReport,
    lp64: bool,
) -> Seq<char>
    decreases order.len() - j,
{
    if j < 0 || j >= order.len() {
        Seq::<char>::empty()
    } else {
        spec_image_line(report.binary_images@, order[j], report, lp64) + spec_image_lines(
            order,
            j + 1,
            report,
            lp64,
        )
    }
}

/// The binary-image table: a header line, then one line per image in
/// ascending base-address order.
pub open spec fn spec_images_block(report: CrashReport, lp64: bool) -> Seq<char> {
    "Binary Images:"@ + nl() + spec_image_lines(
        spec_sort_order(report.binary_images@),
        0,
        report,
        lp64,
    )
}

fn images_block(report: &CrashReport, lp64: bool) -> (r: String)
    ensures
        r@ == spec_images_block(*report, lp64),
{
    let mut r = String::from_str("Binary Images:");
    r.append("\n");
    let ghost header = r@;
    proof {
        reveal_strlit("\n");
        assert(header =~= "Binary Images:"@ + nl());
    }
    let order = sort_image_order(&report.binary_images);
    let mut j: usize = 0;
    while j < order.len()
        invariant
            j <= order@.len(),
            order@ == spec_sort_order(report.binary_images@),
            forall|k: int| 0 <= k < order@.len() ==> (#[trigger] order@[k]) < report.binary_images@.len(),
            header + spec_image_lines(order@, 0, *report, lp64) == r@ + spec_image_lines(
                order@,
                j as int,
                *report,
                lp64,
            ),
        decreases order@.len() - j,
    {
        let ghost r0 = r@;
        let line = image_line(report, order[j], lp64);
        r.append(line.as_str());
        proof {
            assert(r0 + line@ + spec_image_lines(order@, j as int + 1, *report, lp64) =~= r0
                + spec_image_lines(order@, j as int, *report, lp64));
        }
        j = j + 1;
    }
    proof {
        assert(r@ + Seq::<char>::empty() =~= r@);
        assert(r@ =~= spec_images_block(*report, lp64));
    }
    r
}

/// Copy a byte vector; the copy holds the same bytes.
fn clone_bytes(v: &Vec<u8>) -> (r: Vec<u8>)
    ensures
        r@ == v@,
{
    let mut r: Vec<u8> = Vec::new();
    let mut i: usize = 0;
    while i < v.len()
        invariant
            i <= v@.len(),
            r@ =~= v@.subrange(0, i as int),
        decreases v@.len() - i,
    {
        r.push(v[i]);
        i = i + 1;
    }
    proof {
        assert(r@ =~= v@);
    }
    r
}

/// The whole rendered document for a given incident identifier: header,
/// process, system and exception blocks, the uncaught-exception record and
/// its backtrace, one block per thread, the crashed thread's registers,
/// and the binary-image table.  A resolution failure while rendering any
/// frame aborts the whole rendering with that error.
pub open spec fn spec_rendered(
    report: CrashReport,
    symbolicate: Option<&Symbolicate>,
    id: Seq<u8>,
) -> Result<Seq<char>, ErrorKind> {
    let code_label = spec_derived_code_type(report).0;
    let lp64 = spec_derived_code_type(report).1;
    match spec_backtrace_block(report, lp64, symbolicate) {
        Err(e) => Err(e),
        Ok(bt) => match spec_thread_blocks(report.threads@, 0, report, lp64, symbolicate) {
            Err(e) => Err(e),
            Ok(tb) => Ok(
                spec_header_block(report, id) + spec_process_block(report, code_label)
                    + spec_system_block(report) + spec_exception_code_block(report)
                    + spec_uncaught_block(report) + bt + tb + spec_register_block(
                    report,
                    code_label,
                    lp64,
                ) + spec_images_block(report, lp64),
            ),
        },
    }
}

/// Render a decoded crash report, resolving frames through the engine when
/// one is given.  The incident identifier is the report's own when a
/// well-formed one is embedded, and freshly generated otherwise.
pub fn text_report(report: &CrashReport, symbolicate: Option<&Symbolicate>) -> (r: Result<
    String,
    ErrorKind,
>)
    ensures
        (match r {
            Ok(t) => exists|id: Seq<u8>|
                #![auto]
                id.len() == 16 && (spec_embedded_uuid(*report) matches Some(u) ==> id == u)
                    && spec_rendered(*report, symbolicate, id) == Ok::<Seq<char>, ErrorKind>(t@),
            Err(e) => forall|id: Seq<u8>|
                #[trigger] spec_rendered(*report, symbolicate, id) == Err::<Seq<char>, ErrorKind>(
                    e,
                ),
        }),
{
    let (code_label, lp64) = derived_code_type(report);
    let id_bytes: Vec<u8> = match &report.report_info.uuid {
        Some(u) => {
            if u.len() == 16 {
                clone_bytes(u)
            } else {
                random_uuid_bytes()
            }
        },
        None => random_uuid_bytes(),
    };
    let mut text = header_block(report, id_bytes.as_slice());
    let pb = process_block(report, code_label);
    text.append(pb.as_str());
    let sb = system_block(report);
    text.append(sb.as_str());
    let eb = exception_code_block(report);
    text.append(eb.as_str());
    let ub = uncaught_block(report);
    text.append(ub.as_str());
    let bt = match backtrace_block(report, lp64, symbolicate) {
        Ok(b) => b,
        Err(e) => {
            return Err(e);
        },
    };
    text.append(bt.as_str());
    let tb = match thread_blocks(report, lp64, symbolicate) {
        Ok(b) => b,
        Err(e) => {
            return Err(e);
        },
    };
    text.append(tb.as_str());
    let rb = register_block(report, code_label, lp64);
    text.append(rb.as_str());
    let ib = images_block(report, lp64);
    text.append(ib.as_str());
    proof {
        assert(spec_rendered(*report, symbolicate, id_bytes@) == Ok::<Seq<char>, ErrorKind>(text@))
            by {
            assert(text@ =~= spec_header_block(*report, id_bytes@) + spec_process_block(
                *report,
                code_label,
            ) + spec_system_block(*report) + spec_exception_code_block(*report)
                + spec_uncaught_block(*report) + bt@ + tb@ + spec_register_block(
                *report,
                code_label,
                lp64,
            ) + spec_images_block(*report, lp64));
        }
    }
    Ok(text)
}


} // verus!
