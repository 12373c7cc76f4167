use vstd::prelude::*;
use vstd::string::StringSliceAdditionalSpecFns;

verus! {

/// A named section of a debug object and its raw bytes.  The name is the
/// raw sixteen-byte field from the object, padded with NUL bytes.
pub struct SectionInfo {
    pub name: Vec<u8>,
    pub data: Vec<u8>,
}

/// One segment of a debug object: its raw name bytes, the virtual address
/// it was linked at, and its sections.
pub struct SegmentInfo {
    pub name: Vec<u8>,
    pub vmaddr: u64,
    pub sections: Vec<SectionInfo>,
}

/// The container kind sniffed from the leading bytes of a debug object.
#[derive(Clone, Copy, Debug, PartialEq, Eq, Structural)]
pub enum ObjectHint {
    Single,
    Fat(usize),
    Unknown,
}

#[verifier::external_type_specification]
#[verifier::external_body]
pub struct ExMachO<'a>(goblin::mach::MachO<'a>);

#[verifier::external_type_specification]
#[verifier::external_body]
pub struct ExMultiArch<'a>(goblin::mach::MultiArch<'a>);

/// A big-endian 32-bit word read from four bytes.
pub open spec fn spec_be32(b: Seq<u8>) -> int {
    (b[0] as int) * 0x1000000 + (b[1] as int) * 0x10000 + (b[2] as int) * 0x100 + (b[3] as int)
}

/// How the leading bytes of a debug object classify: one of the four
/// image magics (either word size, either byte order) marks a
/// single-architecture image; the container magic marks a
/// multi-architecture container whose advertised slice count follows as a
/// big-endian word; every other pattern is unrecognized.
pub open spec fn spec_object_hint(data: Seq<u8>) -> ObjectHint {
    let magic = spec_be32(data.subrange(0, 4));
    if magic == 0xfeedface || magic == 0xcefaedfe || magic == 0xfeedfacf || magic == 0xcffaedfe {
        ObjectHint::Single
    } else if magic == 0xcafebabe {
        ObjectHint::Fat(spec_be32(data.subrange(4, 8)) as usize)
    } else {
        ObjectHint::Unknown
    }
}

/// Relies on goblin's peek_bytes: classifies the leading bytes of an
/// object as a single-architecture image, a multi-architecture container
/// advertising its slice count, or something unrecognized.  Hints for
/// other object families, and sniffing errors, are reported as
/// unrecognized.
#[verifier::external_body]
pub(crate) fn peek_hint(bytes: &[u8]) -> (r: ObjectHint)
    requires
        bytes@.len() >= 16,
    ensures
        r == spec_object_hint(bytes@),
{
    let mut head = [0u8; 16];
    head.clone_from_slice(&bytes[..16]);
    match goblin::peek_bytes(&head) {
        Ok(goblin::Hint::Mach(_)) => ObjectHint::Single,
        Ok(goblin::Hint::MachFat(count)) => ObjectHint::Fat(count),
        _ => ObjectHint::Unknown,
    }
}

/// Whether the bytes parse as a single-architecture image.
pub uninterp spec fn spec_macho_parses(data: Seq<u8>) -> bool;

/// The identity bytes the image parsed from the data carries, if any.
pub uninterp spec fn spec_macho_uuid(data: Seq<u8>) -> Option<Seq<u8>>;

/// The declared byte order of the image parsed from the data.
pub uninterp spec fn spec_macho_little(data: Seq<u8>) -> bool;

/// The segments of the image parsed from the data.
pub uninterp spec fn spec_macho_segments(data: Seq<u8>) -> Seq<SegmentInfo>;

/// The identity bytes of the first identity load command of an image.
pub uninterp spec fn macho_uuid_of(macho: goblin::mach::MachO) -> Option<Seq<u8>>;

/// The declared byte order of an image.
pub uninterp spec fn macho_little_of(macho: goblin::mach::MachO) -> bool;

/// The segments of an image: raw name bytes, virtual address, and the
/// sections with their raw name bytes and data.
pub uninterp spec fn macho_segments_of(macho: goblin::mach::MachO) -> Seq<SegmentInfo>;

/// Relies on goblin's MachO::parse to parse a single-architecture image;
/// parsing is a function of the bytes, and the parsed image carries the
/// named identity, byte order and segments of those bytes.
#[verifier::external_body]
pub(crate) fn macho_parse<'a>(bytes: &'a [u8]) -> (r: Option<goblin::mach::MachO<'a>>)
    ensures
        (match r {
            Some(m) => spec_macho_parses(bytes@) && macho_uuid_of(m) == spec_macho_uuid(bytes@)
                && macho_little_of(m) == spec_macho_little(bytes@) && macho_segments_of(m)
                == spec_macho_segments(bytes@),
            None => !spec_macho_parses(bytes@),
        }),
{
    goblin::mach::MachO::parse(bytes, 0).ok()
}

/// Whether the bytes open as a multi-architecture container.
pub uninterp spec fn spec_fat_parses(data: Seq<u8>) -> bool;

/// Relies on goblin's MultiArch::new to open a multi-architecture
/// container; whether it opens is a function of the bytes.
#[verifier::external_body]
pub(crate) fn multiarch_new<'a>(bytes: &'a [u8]) -> (r: Option<goblin::mach::MultiArch<'a>>)
    ensures
        (match r {
            Some(_) => spec_fat_parses(bytes@),
            None => !spec_fat_parses(bytes@),
        }),
{
    goblin::mach::MultiArch::new(bytes).ok()
}

/// Whether the container's slice at an index extracts as a Mach-O image.
pub uninterp spec fn fat_slice_macho(multi: goblin::mach::MultiArch, index: int) -> bool;

/// The identity bytes of the container's slice at an index.
pub uninterp spec fn fat_slice_uuid(multi: goblin::mach::MultiArch, index: int) -> Option<Seq<u8>>;

/// The declared byte order of the container's slice at an index.
pub uninterp spec fn fat_slice_little(multi: goblin::mach::MultiArch, index: int) -> bool;

/// The segments of the container's slice at an index.
pub uninterp spec fn fat_slice_segments(multi: goblin::mach::MultiArch, index: int) -> Seq<
    SegmentInfo,
>;

/// Relies on goblin's MultiArch::get to extract one slice; extraction is a
/// function of the container and the index, and the extracted image
/// carries the slice's named identity, byte order and segments.  A slice
/// that is out of range, is not a Mach-O image, or fails to parse comes
/// back as None.
#[verifier::external_body]
pub(crate) fn multiarch_get<'a>(multi: &goblin::mach::MultiArch<'a>, index: usize) -> (r: Option<
    goblin::mach::MachO<'a>,
>)
    ensures
        (match r {
            Some(m) => fat_slice_macho(*multi, index as int) && macho_uuid_of(m) == fat_slice_uuid(
                *multi,
                index as int,
            ) && macho_little_of(m) == fat_slice_little(*multi, index as int)
                && macho_segments_of(m) == fat_slice_segments(*multi, index as int),
            None => !fat_slice_macho(*multi, index as int),
        }),
{
    match multi.get(index) {
        Ok(goblin::mach::SingleArch::MachO(m)) => Some(m),
        _ => None,
    }
}

/// Relies on goblin's MachO field little_endian.
#[verifier::external_body]
pub(crate) fn macho_little_endian(macho: &goblin::mach::MachO) -> (r: bool)
    ensures
        r == macho_little_of(*macho),
{
    macho.little_endian
}

/// Relies on goblin's load_commands: hands back the uuid field of the
/// first identity (LC_UUID) load command, if one is present.
#[verifier::external_body]
pub(crate) fn macho_uuid(macho: &goblin::mach::MachO) -> (r: Option<Vec<u8>>)
    ensures
        (match r {
            Some(b) => b@.len() == 16 && macho_uuid_of(*macho) == Some(b@),
            None => macho_uuid_of(*macho) is None,
        }),
{
    for lc in &macho.load_commands {
        if let goblin::mach::load_command::CommandVariant::Uuid(cmd) = &lc.command {
            return Some(cmd.uuid.to_vec());
        }
    }
    None
}

/// Relies on goblin's segments list and Segment::sections: hands back each
/// segment's raw name bytes, virtual address, and sections with their raw
/// name bytes and data.  A segment whose section table cannot be read
/// yields no sections.
#[verifier::external_body]
pub(crate) fn macho_segments(macho: &goblin::mach::MachO) -> (r: Vec<SegmentInfo>)
    ensures
        r@ == macho_segments_of(*macho),
{
    let mut out = Vec::new();
    for seg in macho.segments.iter() {
        let mut sections = Vec::new();
        if let Ok(list) = seg.sections() {
            for (sect, data) in list {
                sections.push(SectionInfo { name: sect.sectname.to_vec(), data: data.to_vec() });
            }
        }
        out.push(SegmentInfo { name: seg.segname.to_vec(), vmaddr: seg.vmaddr, sections });
    }
    out
}

/// The NUL-terminated prefix of a raw name field.
pub open spec fn spec_cstr(bs: Seq<u8>) -> Seq<u8>
    decreases bs.len(),
{
    if bs.len() == 0 || bs[0] == 0 {
        Seq::<u8>::empty()
    } else {
        seq![bs[0]] + spec_cstr(bs.skip(1))
    }
}

/// When the first `n` bytes are nonzero and byte `n` (if present) is zero,
/// the NUL-terminated prefix is exactly the first `n` bytes.
pub proof fn lemma_cstr_prefix(bs: Seq<u8>, n: int)
    requires
        0 <= n <= bs.len(),
        forall|j: int| 0 <= j < n ==> bs[j] != 0,
        n < bs.len() ==> bs[n] == 0,
    ensures
        spec_cstr(bs) == bs.subrange(0, n),
    decreases n,
{
    if n == 0 {
        assert(bs.subrange(0, 0) =~= Seq::<u8>::empty());
        if bs.len() > 0 {
            assert(bs[0] == 0);
        }
    } else {
        assert(bs[0] != 0);
        lemma_cstr_prefix(bs.skip(1), n - 1);
        assert(spec_cstr(bs) =~= seq![bs[0]] + bs.skip(1).subrange(0, n - 1));
        assert(seq![bs[0]] + bs.skip(1).subrange(0, n - 1) =~= bs.subrange(0, n));
    }
}

/// The NUL-terminated prefix of `name`, as a fresh byte vector.
pub fn cstr_of(name: &Vec<u8>) -> (r: Vec<u8>)
    ensures
        r@ == spec_cstr(name@),
{
    let mut n: usize = 0;
    while n < name.len() && name[n] != 0
        invariant
            n <= name@.len(),
            forall|j: int| 0 <= j < n ==> name@[j] != 0,
        decreases name@.len() - n,
    {
        n = n + 1;
    }
    let mut r: Vec<u8> = Vec::new();
    let mut i: usize = 0;
    while i < n
        invariant
            i <= n <= name@.len(),
            r@ =~= name@.subrange(0, i as int),
        decreases n - i,
    {
        r.push(name[i]);
        i = i + 1;
    }
    proof {
        lemma_cstr_prefix(name@, n as int);
        assert(r@ =~= name@.subrange(0, n as int));
    }
    r
}

/// Whether a raw name field holds exactly the given bytes before its NUL.
pub open spec fn spec_cstr_is(bs: Seq<u8>, target: Seq<u8>) -> bool {
    spec_cstr(bs) == target
}

/// Compare the NUL-terminated prefix of `name` against `target`.
pub fn cstr_is(name: &Vec<u8>, target: &[u8]) -> (r: bool)
    ensures
        r == spec_cstr_is(name@, target@),
{
    let c = cstr_of(name);
    if c.len() != target.len() {
        proof {
            assert(c@ != target@);
        }
        return false;
    }
    let mut i: usize = 0;
    while i < c.len()
        invariant
            i <= c@.len(),
            c@.len() == target@.len(),
            c@ == spec_cstr(name@),
            forall|j: int| 0 <= j < i ==> c@[j] == target@[j],
        decreases c@.len() - i,
    {
        if c[i] != target[i] {
            proof {
                assert(c@ != target@);
            }
            return false;
        }
        i = i + 1;
    }
    proof {
        assert(c@ =~= target@);
    }
    true
}

/// The raw name of the code segment: `__TEXT`.
pub open spec fn spec_text_segment_name() -> Seq<u8> {
    seq![0x5fu8, 0x5fu8, 0x54u8, 0x45u8, 0x58u8, 0x54u8]
}

/// The load-bias of a segment list: the virtual address of the first
/// segment named `__TEXT`, and zero when there is none.
pub open spec fn spec_load_bias(segs: Seq<SegmentInfo>) -> u64
    decreases segs.len(),
{
    if segs.len() == 0 {
        0
    } else if spec_cstr_is(segs[0].name@, spec_text_segment_name()) {
        segs[0].vmaddr
    } else {
        spec_load_bias(segs.skip(1))
    }
}

/// Find the load-bias address: the virtual address of the code segment,
/// zero when the object has none.
pub fn load_bias_of(segs: &Vec<SegmentInfo>) -> (r: u64)
    ensures
        r == spec_load_bias(segs@),
{
    let text: [u8; 6] = [0x5f, 0x5f, 0x54, 0x45, 0x58, 0x54];
    proof {
        assert(segs@.skip(0) =~= segs@);
    }
    let mut i: usize = 0;
    while i < segs.len()
        invariant
            i <= segs@.len(),
            text@ =~= spec_text_segment_name(),
            spec_load_bias(segs@) == spec_load_bias(segs@.skip(i as int)),
            forall|j: int| 0 <= j < i ==> !spec_cstr_is(segs@[j].name@, spec_text_segment_name()),
        decreases segs@.len() - i,
    {
        if cstr_is(&segs[i].name, text.as_slice()) {
            proof {
                assert(segs@.skip(i as int)[0] == segs@[i as int]);
            }
            return segs[i].vmaddr;
        }
        proof {
            assert(segs@.skip(i as int).skip(1) =~= segs@.skip(i as int + 1));
        }
        i = i + 1;
    }
    proof {
        assert(segs@.skip(i as int).len() == 0);
    }
    0
}

/// Whether a raw section name matches a canonical debug-section name.  A
/// canonical name beginning with a dot follows the platform convention:
/// the dot is stripped and the stored name must be the remainder prefixed
/// with two underscores.  A name without a leading dot matches verbatim.
pub open spec fn spec_section_match(stored: Seq<u8>, canonical: Seq<u8>) -> bool {
    if canonical.len() > 0 && canonical[0] == 0x2e {
        spec_cstr_is(stored, seq![0x5fu8, 0x5fu8] + canonical.skip(1))
    } else {
        spec_cstr_is(stored, canonical)
    }
}

/// Compare a raw section name field against a canonical section name.
pub fn section_match(stored: &Vec<u8>, canonical: &[u8]) -> (r: bool)
    ensures
        r == spec_section_match(stored@, canonical@),
{
    if canonical.len() > 0 && canonical[0] == 0x2e {
        let mut want: Vec<u8> = Vec::new();
        want.push(0x5f);
        want.push(0x5f);
        let mut i: usize = 1;
        while i < canonical.len()
            invariant
                1 <= i <= canonical@.len(),
                want@ =~= seq![0x5fu8, 0x5fu8] + canonical@.subrange(1, i as int),
            decreases canonical@.len() - i,
        {
            want.push(canonical[i]);
            i = i + 1;
        }
        proof {
            assert(want@ =~= seq![0x5fu8, 0x5fu8] + canonical@.skip(1));
        }
        cstr_is(stored, want.as_slice())
    } else {
        cstr_is(stored, canonical)
    }
}

/// The bytes of the first section, scanning segments in order and each
/// segment's sections in order, whose name matches the canonical name;
/// empty when no section matches.
pub open spec fn spec_section_in(sections: Seq<SectionInfo>, canonical: Seq<u8>) -> Option<Seq<u8>>
    decreases sections.len(),
{
    if sections.len() == 0 {
        None
    } else if spec_section_match(sections[0].name@, canonical) {
        Some(sections[0].data@)
    } else {
        spec_section_in(sections.skip(1), canonical)
    }
}

/// As `spec_section_in`, over all segments in order.
pub open spec fn spec_section_data(segs: Seq<SegmentInfo>, canonical: Seq<u8>) -> Seq<u8>
    decreases segs.len(),
{
    if segs.len() == 0 {
        Seq::<u8>::empty()
    } else {
        match spec_section_in(segs[0].sections@, canonical) {
            Some(d) => d,
            None => spec_section_data(segs.skip(1), canonical),
        }
    }
}

/// Extract the bytes of the named debug section; an absent section yields
/// an empty byte range, so resolution degrades rather than fails.
pub fn section_data_by_name(segs: &Vec<SegmentInfo>, canonical: &str) -> (r: Vec<u8>)
    ensures
        r@ == spec_section_data(segs@, canonical.spec_bytes()),
{
    let want = canonical.as_bytes();
    proof {
        assert(segs@.skip(0) =~= segs@);
    }
    let mut i: usize = 0;
    while i < segs.len()
        invariant
            i <= segs@.len(),
            want@ == canonical.spec_bytes(),
            spec_section_data(segs@, want@) == spec_section_data(segs@.skip(i as int), want@),
        decreases segs@.len() - i,
    {
        let sections = &segs[i].sections;
        proof {
            assert(sections@.skip(0) =~= sections@);
        }
        let mut k: usize = 0;
        while k < sections.len()
            invariant
                k <= sections@.len(),
                want@ == canonical.spec_bytes(),
                sections@ == segs@[i as int].sections@,
                i < segs@.len(),
                spec_section_data(segs@, want@) == spec_section_data(segs@.skip(i as int), want@),
                spec_section_in(sections@, want@) == spec_section_in(
                    sections@.skip(k as int),
                    want@,
                ),
            decreases sections@.len() - k,
        {
            if section_match(&sections[k].name, want) {
                proof {
                    assert(sections@.skip(k as int)[0] == sections@[k as int]);
                    assert(segs@.skip(i as int)[0] == segs@[i as int]);
                    assert(spec_section_in(sections@.skip(k as int), want@) == Some(
                        sections@[k as int].data@,
                    ));
                    assert(spec_section_data(segs@.skip(i as int), want@) == sections@[k
                        as int].data@);
                }
                let mut out: Vec<u8> = Vec::new();
                let data = &sections[k].data;
                let mut j: usize = 0;
                while j < data.len()
                    invariant
                        j <= data@.len(),
                        k < sections@.len(),
                        data@ == sections@[k as int].data@,
                        spec_section_data(segs@, canonical.spec_bytes()) == sections@[k
                            as int].data@,
                        out@ =~= data@.subrange(0, j as int),
                    decreases data@.len() - j,
                {
                    out.push(data[j]);
                    j = j + 1;
                }
                proof {
                    assert(out@ =~= sections@[k as int].data@);
                }
                return out;
            }
            proof {
                assert(sections@.skip(k as int).skip(1) =~= sections@.skip(k as int + 1));
            }
            k = k + 1;
        }
        proof {
            assert(spec_section_in(segs@[i as int].sections@, want@) is None);
            assert(segs@.skip(i as int)[0] == segs@[i as int]);
            assert(segs@.skip(i as int).skip(1) =~= segs@.skip(i as int + 1));
        }
        i = i + 1;
    }
    Vec::new()
}

} // verus!
