use vstd::prelude::*;
use vstd::string::StrSliceExecFns;
use vstd::string::StringExecFns;

use std::io::Read;

use crate::error::{BuildId, ErrorKind};
use crate::objparse::ObjectHint;

verus! {

/// The identity metadata of one debug bundle.
#[derive(Debug)]
pub struct DSYMInfo {
    pub identifier: String,
    pub version: String,
    pub short_version: Option<String>,
}

impl DSYMInfo {
    /// What the identity looks like in diagnostics: the identifier with the
    /// short version and version, or just the version, in parentheses.
    pub open spec fn spec_describe(&self) -> Seq<char> {
        match self.short_version {
            Some(short) => self.identifier@ + " ("@ + short@ + " - "@ + self.version@ + ")"@,
            None => self.identifier@ + " ("@ + self.version@ + ")"@,
        }
    }

    /// Render the identity for diagnostics.
    pub fn describe(&self) -> (r: String)
        ensures
            r@ == self.spec_describe(),
    {
        proof {
            reveal_strlit(" (");
            reveal_strlit(" - ");
            reveal_strlit(")");
        }
        let mut r = self.identifier.clone();
        r.append(" (");
        match &self.short_version {
            Some(short) => {
                r.append(short.as_str());
                r.append(" - ");
                r.append(self.version.as_str());
            },
            None => {
                r.append(self.version.as_str());
            },
        }
        r.append(")");
        proof {
            assert(r@ =~= self.spec_describe());
        }
        r
    }
}

/// A resolved source location; every part is optional because debug data
/// can be partial.
#[derive(Clone, Debug)]
pub struct Location {
    pub file: Option<String>,
    pub line: Option<u64>,
    pub column: Option<u64>,
}

impl PartialEq for Location {
    fn eq(&self, other: &Location) -> (r: bool) {
        let file_eq = match (&self.file, &other.file) {
            (Some(a), Some(b)) => *a == *b,
            (None, None) => true,
            _ => false,
        };
        let line_eq = match (&self.line, &other.line) {
            (Some(a), Some(b)) => *a == *b,
            (None, None) => true,
            _ => false,
        };
        let column_eq = match (&self.column, &other.column) {
            (Some(a), Some(b)) => *a == *b,
            (None, None) => true,
            _ => false,
        };
        file_eq && line_eq && column_eq
    }
}

impl vstd::std_specs::cmp::PartialEqSpecImpl for Location {
    open spec fn obeys_eq_spec() -> bool {
        true
    }

    open spec fn eq_spec(&self, other: &Location) -> bool {
        &&& match (self.file, other.file) {
            (Some(a), Some(b)) => a@ == b@,
            (None, None) => true,
            _ => false,
        }
        &&& match (self.line, other.line) {
            (Some(a), Some(b)) => a == b,
            (None, None) => true,
            _ => false,
        }
        &&& match (self.column, other.column) {
            (Some(a), Some(b)) => a == b,
            (None, None) => true,
            _ => false,
        }
    }
}

impl Eq for Location {}

impl Location {
    /// How a location is shown inside a frame: `file:line`, with `???` for
    /// a missing file and `0` for a missing line.
    pub open spec fn spec_display(&self) -> Seq<char> {
        (match self.file {
            Some(f) => f@,
            None => "???"@,
        }) + ":"@ + crate::textfmt::spec_dec(
            (match self.line {
                Some(l) => l,
                None => 0u64,
            }) as nat,
        )
    }

    /// Render the location as `file:line`.
    pub fn display_string(&self) -> (r: String)
        ensures
            r@ == self.spec_display(),
    {
        proof {
            reveal_strlit("???");
            reveal_strlit(":");
        }
        let mut r = match &self.file {
            Some(f) => f.clone(),
            None => String::from_str("???"),
        };
        r.append(":");
        let line = match &self.line {
            Some(l) => *l,
            None => 0u64,
        };
        let dec = crate::textfmt::dec_u64(line);
        r.append(dec.as_str());
        proof {
            assert(r@ =~= self.spec_display());
        }
        r
    }
}

/// One inlined call frame at an address: the demangled function name when
/// it is known, and the source location when it is known.
#[derive(Clone, Debug)]
pub struct Frame {
    pub function: Option<String>,
    pub location: Option<Location>,
}

impl Frame {
    /// The source location of the frame.
    pub fn location(self) -> (r: Option<Location>)
        ensures
            r == self.location,
    {
        self.location
    }

    /// How a frame is shown: the function name if known, then the location
    /// in parentheses, separated by a space when both are present.
    pub open spec fn spec_display(&self) -> Seq<char> {
        match (self.function, self.location) {
            (Some(f), Some(l)) => f@ + " ("@ + l.spec_display() + ")"@,
            (Some(f), None) => f@,
            (None, Some(l)) => "("@ + l.spec_display() + ")"@,
            (None, None) => Seq::<char>::empty(),
        }
    }

    /// Render the frame for a report line.
    pub fn display_string(&self) -> (r: String)
        ensures
            r@ == self.spec_display(),
    {
        proof {
            reveal_strlit(" (");
            reveal_strlit("(");
            reveal_strlit(")");
        }
        let mut r = String::new();
        match (&self.function, &self.location) {
            (Some(f), Some(l)) => {
                r.append(f.as_str());
                r.append(" (");
                let loc = l.display_string();
                r.append(loc.as_str());
                r.append(")");
            },
            (Some(f), None) => {
                r.append(f.as_str());
            },
            (None, Some(l)) => {
                r.append("(");
                let loc = l.display_string();
                r.append(loc.as_str());
                r.append(")");
            },
            (None, None) => {},
        }
        proof {
            assert(r@ =~= self.spec_display());
        }
        r
    }
}

/// The ordered chain of inlined frames at an address, innermost first;
/// `Empty` when no resolver covers the build identifier.
pub enum Frames {
    Actual(Vec<Frame>),
    Empty,
}

impl Frames {
    /// The frames as a sequence.
    pub open spec fn spec_frames(&self) -> Seq<Frame> {
        match self {
            Frames::Actual(v) => v@,
            Frames::Empty => Seq::<Frame>::empty(),
        }
    }

    /// How many frames there are.
    pub fn len(&self) -> (r: usize)
        ensures
            r == self.spec_frames().len(),
    {
        match self {
            Frames::Actual(v) => v.len(),
            Frames::Empty => 0,
        }
    }

    /// The frame at a position.
    pub fn get(&self, i: usize) -> (r: &Frame)
        requires
            i < self.spec_frames().len(),
        ensures
            *r == self.spec_frames()[i as int],
    {
        match self {
            Frames::Actual(v) => &v[i],
            Frames::Empty => unreached(),
        }
    }

    /// The frames as a vector.
    pub fn into_vec(self) -> (r: Vec<Frame>)
        ensures
            r@ == self.spec_frames(),
    {
        match self {
            Frames::Actual(v) => v,
            Frames::Empty => Vec::new(),
        }
    }
}

/// 256 to the power `n`.
pub open spec fn spec_pow256(n: nat) -> nat
    decreases n,
{
    if n == 0 {
        1
    } else {
        256 * spec_pow256((n - 1) as nat)
    }
}

/// A byte sequence read as a big-endian number.
pub open spec fn spec_be(bs: Seq<u8>) -> nat
    decreases bs.len(),
{
    if bs.len() == 0 {
        0
    } else {
        spec_be(bs.drop_last()) * 256 + bs.last() as nat
    }
}

/// Read eight bytes at `from` as a big-endian word.
fn be64_of(bs: &[u8], from: usize) -> (r: u64)
    requires
        from + 8 <= bs@.len(),
    ensures
        r == spec_be(bs@.subrange(from as int, from as int + 8)),
{
    proof {
        assert(spec_pow256(0) == 1);
        assert(spec_pow256(1) == 0x100);
        assert(spec_pow256(2) == 0x10000);
        assert(spec_pow256(3) == 0x1000000);
        assert(spec_pow256(4) == 0x100000000);
        assert(spec_pow256(5) == 0x10000000000);
        assert(spec_pow256(6) == 0x1000000000000);
        assert(spec_pow256(7) == 0x100000000000000);
        assert(bs@.subrange(from as int, from as int) =~= Seq::<u8>::empty());
    }
    let n = bs.len();
    let mut r: u64 = 0;
    let mut j: usize = 0;
    while j < 8
        invariant
            j <= 8,
            n == bs@.len(),
            from + 8 <= n,
            r == spec_be(bs@.subrange(from as int, from as int + j)),
            r < spec_pow256(j as nat),
            spec_pow256(0) == 1,
            spec_pow256(1) == 0x100,
            spec_pow256(2) == 0x10000,
            spec_pow256(3) == 0x1000000,
            spec_pow256(4) == 0x100000000,
            spec_pow256(5) == 0x10000000000,
            spec_pow256(6) == 0x1000000000000,
            spec_pow256(7) == 0x100000000000000,
        decreases 8 - j,
    {
        proof {
            assert(r <= spec_pow256(j as nat) - 1);
            assert(r * 256 <= (spec_pow256(j as nat) - 1) * 256) by (nonlinear_arith)
                requires
                    r <= spec_pow256(j as nat) - 1,
            ;
            assert((spec_pow256(j as nat) - 1) * 256 + 255 < spec_pow256((j + 1) as nat));
            assert(spec_pow256((j + 1) as nat) <= 0x10000000000000000);
        }
        let b = bs[from + j];
        r = r * 256 + (b as u64);
        proof {
            let pre = bs@.subrange(from as int, from as int + j);
            let post = bs@.subrange(from as int, from as int + j + 1);
            assert(post.drop_last() =~= pre);
            assert(post.last() == bs@[from as int + j as int]);
        }
        j = j + 1;
    }
    r
}

/// The build identifier packed from sixteen raw bytes.
pub open spec fn spec_build_id(bs: Seq<u8>) -> BuildId {
    BuildId {
        hi: spec_be(bs.subrange(0, 8)) as u64,
        lo: spec_be(bs.subrange(8, 16)) as u64,
    }
}

/// Pack sixteen raw bytes into a build identifier.
pub fn build_id_from_bytes(bs: &[u8]) -> (r: BuildId)
    requires
        bs@.len() == 16,
    ensures
        r == spec_build_id(bs@),
{
    let hi = be64_of(bs, 0);
    let lo = be64_of(bs, 8);
    BuildId { hi, lo }
}

/// Whether `s` ends with `suffix`.
pub open spec fn spec_ends_with(s: Seq<char>, suffix: Seq<char>) -> bool {
    s.len() >= suffix.len() && s.skip(s.len() - suffix.len()) == suffix
}

/// Test whether a string ends with a suffix.
pub fn str_ends_with(s: &str, suffix: &str) -> (r: bool)
    ensures
        r == spec_ends_with(s@, suffix@),
{
    let n = s.unicode_len();
    let m = suffix.unicode_len();
    if n < m {
        return false;
    }
    let mut j: usize = 0;
    while j < m
        invariant
            j <= m,
            m <= n,
            n == s@.len(),
            m == suffix@.len(),
            forall|k: int| 0 <= k < j ==> s@[n - m + k] == suffix@[k],
        decreases m - j,
    {
        if s.get_char(n - m + j) != suffix.get_char(j) {
            proof {
                assert(s@.skip(n - m)[j as int] != suffix@[j as int]);
            }
            return false;
        }
        j = j + 1;
    }
    proof {
        assert(s@.skip(n - m) =~= suffix@);
    }
    true
}

/// The greatest index at which `c` occurs in `s`.
pub open spec fn spec_rfind(s: Seq<char>, c: char) -> Option<int>
    decreases s.len(),
{
    if s.len() == 0 {
        None
    } else if s.last() == c {
        Some(s.len() - 1)
    } else {
        spec_rfind(s.drop_last(), c)
    }
}

/// Find the greatest index at which `c` occurs.
pub fn rfind_char(s: &str, c: char) -> (r: Option<usize>)
    ensures
        match r {
            Some(i) => i < s@.len() && spec_rfind(s@, c) == Some(i as int),
            None => spec_rfind(s@, c) is None,
        },
{
    let n = s.unicode_len();
    proof {
        assert(s@.take(n as int) =~= s@);
    }
    let mut i: usize = n;
    while i > 0
        invariant
            i <= n,
            n == s@.len(),
            spec_rfind(s@, c) == spec_rfind(s@.take(i as int), c),
        decreases i,
    {
        proof {
            assert(s@.take(i as int).drop_last() =~= s@.take(i as int - 1));
            assert(s@.take(i as int).last() == s@[i as int - 1]);
        }
        if s.get_char(i - 1) == c {
            return Some(i - 1);
        }
        i = i - 1;
    }
    proof {
        assert(s@.take(0).len() == 0);
    }
    None
}

/// The part of a path after its last slash.
pub open spec fn spec_last_component(s: Seq<char>) -> Seq<char> {
    match spec_rfind(s, '/') {
        Some(i) => s.skip(i + 1),
        None => s,
    }
}

/// Take the part of a path after its last slash.
pub fn last_component(s: &str) -> (r: String)
    ensures
        r@ == spec_last_component(s@),
{
    match rfind_char(s, '/') {
        Some(i) => {
            let n = s.unicode_len();
            let part = s.substring_char(i + 1, n);
            part.to_owned()
        },
        None => s.to_owned(),
    }
}

/// The stem of a file name: everything before the last dot, unless the
/// dot opens the name.
pub open spec fn spec_stem(s: Seq<char>) -> Seq<char> {
    match spec_rfind(s, '.') {
        Some(i) => if i > 0 {
            s.take(i)
        } else {
            s
        },
        None => s,
    }
}

/// Strip one extension from a file name.
pub fn file_stem(s: &str) -> (r: String)
    ensures
        r@ == spec_stem(s@),
{
    match rfind_char(s, '.') {
        Some(i) => {
            if i > 0 {
                let part = s.substring_char(0, i);
                part.to_owned()
            } else {
                s.to_owned()
            }
        },
        None => s.to_owned(),
    }
}


impl Clone for DSYMInfo {
    fn clone(&self) -> (r: Self)
        ensures
            r == *self,
    {
        DSYMInfo {
            identifier: self.identifier.clone(),
            version: self.version.clone(),
            short_version: match &self.short_version {
                Some(s) => Some(s.clone()),
                None => None,
            },
        }
    }
}

#[verifier::external_type_specification]
#[verifier::external_body]
#[verifier::reject_recursive_types(R)]
pub struct ExZipArchive<R>(zip::ZipArchive<R>);

#[verifier::external_type_specification]
#[verifier::external_body]
#[verifier::reject_recursive_types(T)]
pub struct ExCursor<T>(std::io::Cursor<T>);

/// The address-to-line tables built from one architecture slice's debug
/// sections.  The tables themselves are opaque; the named queries below
/// say what their methods answer.  (addr2line's context type cannot be
/// declared to the verifier directly: its bounds name foreign traits.)
#[verifier::external_body]
pub struct DebugTables {
    inner: addr2line::Context<gimli::EndianRcSlice<gimli::RunTimeEndian>>,
}

/// The names of the entries a symbol archive holds, in entry order.
pub uninterp spec fn zip_names(z: zip::ZipArchive<std::io::Cursor<Vec<u8>>>) -> Seq<Seq<char>>;

/// The entries of a symbol archive that can be read whole: each such
/// entry's name mapped to its decompressed bytes.
pub uninterp spec fn zip_data(z: zip::ZipArchive<std::io::Cursor<Vec<u8>>>) -> Map<
    Seq<char>,
    Seq<u8>,
>;

/// Whether bytes open as an archive, and the entry names they then hold,
/// in entry order.
pub uninterp spec fn spec_archive_names(data: Seq<u8>) -> Option<Seq<Seq<char>>>;

/// The readable entries of the archive the bytes open as: each entry name
/// mapped to its decompressed bytes.
pub uninterp spec fn spec_archive_data(data: Seq<u8>) -> Map<Seq<char>, Seq<u8>>;

/// Relies on zip's ZipArchive::new over an in-memory cursor: opens an
/// archive, or nothing when the bytes cannot be read as one.  Opening is a
/// function of the bytes, and the opened archive holds their named entries.
#[verifier::external_body]
fn zip_open(data: Vec<u8>) -> (r: Option<zip::ZipArchive<std::io::Cursor<Vec<u8>>>>)
    ensures
        (match r {
            Some(z) => spec_archive_names(data@) == Some(zip_names(z)) && zip_data(z)
                == spec_archive_data(data@),
            None => spec_archive_names(data@) is None,
        }),
{
    zip::ZipArchive::new(std::io::Cursor::new(data)).ok()
}

/// Relies on zip's ZipArchive::len: how many entries the archive holds.
#[verifier::external_body]
fn zip_len(z: &zip::ZipArchive<std::io::Cursor<Vec<u8>>>) -> (r: usize)
    ensures
        r == zip_names(*z).len(),
{
    z.len()
}

/// Relies on zip's name_for_index: the stored name of the entry at an
/// index, present exactly for indices below the entry count.
#[verifier::external_body]
fn zip_name_at(z: &zip::ZipArchive<std::io::Cursor<Vec<u8>>>, i: usize) -> (r: Option<String>)
    ensures
        match r {
            Some(s) => i < zip_names(*z).len() && s@ == zip_names(*z)[i as int],
            None => i >= zip_names(*z).len(),
        },
{
    z.name_for_index(i).map(|s| s.to_owned())
}

/// Relies on zip's by_name and the entry's Read impl: the decompressed
/// bytes of the named entry.  The archive's entry table is unchanged; an
/// entry that is absent, or whose data cannot be read whole, yields
/// nothing, and exactly those entries are outside the readable-entry map.
#[verifier::external_body]
fn zip_read(z: &mut zip::ZipArchive<std::io::Cursor<Vec<u8>>>, name: &str) -> (r: Option<Vec<u8>>)
    ensures
        zip_names(*final(z)) == zip_names(*old(z)),
        zip_data(*final(z)) == zip_data(*old(z)),
        (match r {
            Some(d) => zip_data(*old(z)).contains_key(name@) && d@ == zip_data(*old(z)).index(
                name@,
            ),
            None => !zip_data(*old(z)).contains_key(name@),
        }),
{
    let mut file = z.by_name(name).ok()?;
    let mut buf = Vec::new();
    file.read_to_end(&mut buf).ok()?;
    Some(buf)
}

/// The string a property list holds under a key of its top-level
/// dictionary: nothing when the bytes do not parse, the top level is not a
/// dictionary, the key is absent, or its value is not a string.
pub uninterp spec fn spec_plist_string(data: Seq<u8>, key: Seq<char>) -> Option<Seq<char>>;

/// Relies on plist's Value::from_reader, Value::as_dictionary,
/// Dictionary::get and Value::as_string: the string stored under a key of
/// the parsed property list, a function of the bytes and the key.
#[verifier::external_body]
fn plist_string_entry(data: &[u8], key: &str) -> (r: Option<String>)
    ensures
        (match r {
            Some(s) => spec_plist_string(data@, key@) == Some(s@),
            None => spec_plist_string(data@, key@) is None,
        }),
{
    let v = plist::Value::from_reader(std::io::Cursor::new(data)).ok()?;
    let s = v.as_dictionary()?.get(key)?.as_string()?.to_owned();
    Some(s)
}

/// Whether the debug tables parse out of the named sections of a segment
/// list at a byte order.
pub uninterp spec fn spec_tables_ok(
    segs: Seq<crate::objparse::SegmentInfo>,
    little_endian: bool,
) -> bool;

/// The location answer of the debug tables built from a segment list at a
/// byte order, for an absolute address.
pub uninterp spec fn spec_tables_location(
    segs: Seq<crate::objparse::SegmentInfo>,
    little_endian: bool,
    addr: u64,
) -> Result<Option<Location>, ()>;

/// The frame-chain answer of the debug tables built from a segment list at
/// a byte order, for an absolute address.
pub uninterp spec fn spec_tables_frames(
    segs: Seq<crate::objparse::SegmentInfo>,
    little_endian: bool,
    addr: u64,
) -> Result<Seq<Frame>, ()>;

/// Relies on gimli's Dwarf::load and addr2line's Context::from_dwarf: the
/// address-to-line tables over the object's debug sections, handed over by
/// the verified section-name matching rule; nothing when the tables cannot
/// be parsed.  Whether they parse, and every answer they give, is a
/// function of the segments and the byte order.
#[verifier::external_body]
fn build_context(segs: &Vec<crate::objparse::SegmentInfo>, little_endian: bool) -> (r: Option<
    DebugTables,
>)
    ensures
        (match r {
            Some(c) => spec_tables_ok(segs@, little_endian) && forall|addr: u64|
                #![auto]
                ctx_location_query(c, addr) == spec_tables_location(segs@, little_endian, addr)
                    && ctx_frames_query(c, addr) == spec_tables_frames(segs@, little_endian, addr),
            None => !spec_tables_ok(segs@, little_endian),
        }),
{
    let endian = if little_endian {
        gimli::RunTimeEndian::Little
    } else {
        gimli::RunTimeEndian::Big
    };
    let loader = |id: gimli::SectionId| -> Result<_, ()> {
        let data = crate::objparse::section_data_by_name(segs, id.name());
        Ok(gimli::EndianRcSlice::new(std::rc::Rc::from(data.as_slice()), endian))
    };
    match gimli::Dwarf::load(loader) {
        Ok(dwarf) => addr2line::Context::from_dwarf(dwarf).ok().map(|inner| DebugTables { inner }),
        Err(()) => None,
    }
}

/// What find_location answers on a context for an absolute address: a
/// function of the context's tables and the address alone.
pub uninterp spec fn ctx_location_query(c: DebugTables, addr: u64) -> Result<
    Option<Location>,
    (),
>;

/// What find_frames answers on a context for an absolute address: a
/// function of the context's tables and the address alone.
pub uninterp spec fn ctx_frames_query(c: DebugTables, addr: u64) -> Result<Seq<Frame>, ()>;

/// Relies on addr2line's Context::find_location: the best source location
/// for an absolute address.
#[verifier::external_body]
fn ctx_find_location(c: &DebugTables, addr: u64) -> (r: Result<Option<Location>, ()>)
    ensures
        (match r {
            Ok(l) => ctx_location_query(*c, addr) == Ok::<Option<Location>, ()>(l),
            Err(_) => ctx_location_query(*c, addr) is Err,
        }),
{
    match c.inner.find_location(addr) {
        Ok(l) => Ok(l.map(|loc| Location {
            file: loc.file.map(String::from),
            line: loc.line.map(u64::from),
            column: loc.column.map(u64::from),
        })),
        Err(_) => Err(()),
    }
}

/// Relies on addr2line's Context::find_frames (with split loads skipped),
/// FrameIter, and FunctionName::demangle: the chain of inlined frames at
/// an absolute address, innermost first, in plain values.
#[verifier::external_body]
fn ctx_find_frames(c: &DebugTables, addr: u64) -> (r: Result<Vec<Frame>, ()>)
    ensures
        (match r {
            Ok(v) => ctx_frames_query(*c, addr) == Ok::<Seq<Frame>, ()>(v@),
            Err(_) => ctx_frames_query(*c, addr) is Err,
        }),
{
    let mut it = match c.inner.find_frames(addr).skip_all_loads() {
        Ok(i) => i,
        Err(_) => return Err(()),
    };
    let mut out = Vec::new();
    loop {
        let f = match it.next() { Ok(Some(f)) => f, Ok(None) => return Ok(out), Err(_) => return Err(()) };
        let function = f.function.as_ref().and_then(|n| n.demangle().ok()).map(String::from);
        let location = f.location.map(|l| Location { file: l.file.map(String::from),
            line: l.line.map(u64::from), column: l.column.map(u64::from) });
        out.push(Frame { function, location });
    }
}

/// One address resolver: built once from one architecture slice of a debug
/// object, immutable afterwards.  A relative probe is translated to an
/// absolute query address by adding the slice's load-bias.
pub struct Lookup {
    pub name: String,
    pub info: DSYMInfo,
    pub uuid: Option<BuildId>,
    pub slide_addr: u64,
    pub ctx: DebugTables,
}

impl Lookup {
    /// The identifier carried on this resolver's resolution errors.
    pub open spec fn spec_err_id(&self) -> BuildId {
        match self.uuid {
            Some(id) => id,
            None => BuildId::zero_spec(),
        }
    }

    /// What find_location returns: the location query at load-bias plus
    /// probe (wrapping), or a resolution error carrying the identifier and
    /// the probe.
    pub open spec fn spec_find_location(&self, probe: u64) -> Result<Option<Location>, ErrorKind> {
        match ctx_location_query(
            self.ctx,
            vstd::wrapping::u64_specs::wrapping_add(self.slide_addr, probe),
        ) {
            Ok(l) => Ok(l),
            Err(_) => Err(ErrorKind::ResolutionError(self.spec_err_id(), probe)),
        }
    }

    /// What find_frames returns, as a sequence of frames.
    pub open spec fn spec_find_frames(&self, probe: u64) -> Result<Seq<Frame>, ErrorKind> {
        match ctx_frames_query(
            self.ctx,
            vstd::wrapping::u64_specs::wrapping_add(self.slide_addr, probe),
        ) {
            Ok(v) => Ok(v),
            Err(_) => Err(ErrorKind::ResolutionError(self.spec_err_id(), probe)),
        }
    }

    fn err_id(&self) -> (r: BuildId)
        ensures
            r == self.spec_err_id(),
    {
        match &self.uuid {
            Some(id) => *id,
            None => BuildId::zero(),
        }
    }

    /// Resolve a relative probe to its best source location.
    pub fn find_location(&self, probe: u64) -> (r: Result<Option<Location>, ErrorKind>)
        ensures
            r == self.spec_find_location(probe),
    {
        let addr = self.slide_addr.wrapping_add(probe);
        match ctx_find_location(&self.ctx, addr) {
            Ok(l) => Ok(l),
            Err(_) => Err(ErrorKind::ResolutionError(self.err_id(), probe)),
        }
    }

    /// Resolve a relative probe to its chain of inlined frames.
    pub fn find_frames(&self, probe: u64) -> (r: Result<Frames, ErrorKind>)
        ensures
            match r {
                Ok(fr) => self.spec_find_frames(probe) == Ok::<Seq<Frame>, ErrorKind>(
                    fr.spec_frames(),
                ),
                Err(e) => self.spec_find_frames(probe) == Err::<Seq<Frame>, ErrorKind>(e),
            },
    {
        let addr = self.slide_addr.wrapping_add(probe);
        match ctx_find_frames(&self.ctx, addr) {
            Ok(v) => Ok(Frames::Actual(v)),
            Err(_) => Err(ErrorKind::ResolutionError(self.err_id(), probe)),
        }
    }

    /// Build a resolver from one architecture slice: extract the build
    /// identifier and the load-bias, then hand the sections to the debug
    /// tables.  The resolver comes back exactly when the slice's tables
    /// parse; it carries the slice's packed identity bytes (nothing when
    /// the slice has none), the virtual address of the slice's code
    /// segment as its load-bias, and tables that answer as the slice's
    /// sections do.
    pub fn load(name: String, info: DSYMInfo, macho: &goblin::mach::MachO) -> (r: Option<Lookup>)
        ensures
            (match r {
                Some(l) => {
                    &&& spec_tables_ok(
                        crate::objparse::macho_segments_of(*macho),
                        crate::objparse::macho_little_of(*macho),
                    )
                    &&& l.name@ == name@
                    &&& l.info == info
                    &&& l.uuid == spec_packed_uuid(crate::objparse::macho_uuid_of(*macho))
                    &&& l.slide_addr == crate::objparse::spec_load_bias(
                        crate::objparse::macho_segments_of(*macho),
                    )
                    &&& forall|addr: u64|
                        #![auto]
                        ctx_location_query(l.ctx, addr) == spec_tables_location(
                            crate::objparse::macho_segments_of(*macho),
                            crate::objparse::macho_little_of(*macho),
                            addr,
                        ) && ctx_frames_query(l.ctx, addr) == spec_tables_frames(
                            crate::objparse::macho_segments_of(*macho),
                            crate::objparse::macho_little_of(*macho),
                            addr,
                        )
                },
                None => !spec_tables_ok(
                    crate::objparse::macho_segments_of(*macho),
                    crate::objparse::macho_little_of(*macho),
                ),
            }),
    {
        let segments = crate::objparse::macho_segments(macho);
        let little = crate::objparse::macho_little_endian(macho);
        let uuid = match crate::objparse::macho_uuid(macho) {
            Some(bytes) => Some(build_id_from_bytes(bytes.as_slice())),
            None => None,
        };
        let slide_addr = crate::objparse::load_bias_of(&segments);
        match build_context(&segments, little) {
            Some(ctx) => Some(Lookup { name, info, uuid, slide_addr, ctx }),
            None => None,
        }
    }
}

/// A slice's identity bytes packed into an identifier, when it has any.
pub open spec fn spec_packed_uuid(bytes: Option<Seq<u8>>) -> Option<BuildId> {
    match bytes {
        Some(bs) => Some(spec_build_id(bs)),
        None => None,
    }
}

/// Whether the container's slice at an index yields a registered resolver:
/// it extracts as an image, carries an identity, and its debug tables
/// parse.
pub open spec fn spec_slice_kept(multi: goblin::mach::MultiArch, i: int) -> bool {
    &&& crate::objparse::fat_slice_macho(multi, i)
    &&& crate::objparse::fat_slice_uuid(multi, i) is Some
    &&& spec_tables_ok(
        crate::objparse::fat_slice_segments(multi, i),
        crate::objparse::fat_slice_little(multi, i),
    )
}

/// The indices in `i .. count` of the slices that yield resolvers.
pub open spec fn spec_kept_slices(multi: goblin::mach::MultiArch, i: int, count: int) -> Seq<int>
    decreases count - i,
{
    if i < 0 || i >= count {
        Seq::<int>::empty()
    } else if spec_slice_kept(multi, i) {
        seq![i] + spec_kept_slices(multi, i + 1, count)
    } else {
        spec_kept_slices(multi, i + 1, count)
    }
}

/// What the resolver loaded from the container's slice at an index looks
/// like: the bundle's name and identity, the slice's packed identifier,
/// its code segment's address as the load-bias, and tables answering as
/// the slice's sections do.
pub open spec fn spec_kept_resolver(
    multi: goblin::mach::MultiArch,
    i: int,
    l: Lookup,
    name: Seq<char>,
    info: DSYMInfo,
) -> bool {
    &&& l.name@ == name
    &&& l.info == info
    &&& l.uuid == spec_packed_uuid(crate::objparse::fat_slice_uuid(multi, i))
    &&& l.uuid is Some
    &&& l.slide_addr == crate::objparse::spec_load_bias(
        crate::objparse::fat_slice_segments(multi, i),
    )
    &&& forall|addr: u64|
        #![auto]
        ctx_location_query(l.ctx, addr) == spec_tables_location(
            crate::objparse::fat_slice_segments(multi, i),
            crate::objparse::fat_slice_little(multi, i),
            addr,
        ) && ctx_frames_query(l.ctx, addr) == spec_tables_frames(
            crate::objparse::fat_slice_segments(multi, i),
            crate::objparse::fat_slice_little(multi, i),
            addr,
        )
}

/// The Vec values of a list, viewed as character sequences.
pub open spec fn spec_views(v: Seq<String>) -> Seq<Seq<char>> {
    v.map_values(|s: String| s@)
}

/// The bundle roots among an archive's entry names: those ending in the
/// bundle-root marker, in entry order.
pub open spec fn spec_dsym_filter(names: Seq<Seq<char>>) -> Seq<Seq<char>>
    decreases names.len(),
{
    if names.len() == 0 {
        Seq::<Seq<char>>::empty()
    } else if spec_ends_with(names.last(), ".dSYM/"@) {
        spec_dsym_filter(names.drop_last()).push(names.last())
    } else {
        spec_dsym_filter(names.drop_last())
    }
}

/// The identity-metadata path inside a bundle.
pub open spec fn spec_info_path(dsym: Seq<char>) -> Seq<char> {
    dsym + "Contents/Info.plist"@
}

/// The debug-object path inside a bundle: the bundle's base name (the
/// directory name with its suffix stripped, stripped again if doubled)
/// under the fixed object directory.
pub open spec fn spec_dwarf_path(dsym: Seq<char>) -> Seq<char> {
    dsym + "Contents/Resources/DWARF/"@ + spec_stem(
        spec_stem(spec_last_component(dsym.take(dsym.len() - 1))),
    )
}

/// How loading one bundle of a readable archive ends: the error it
/// raises, or nothing when it loads (even if it registers no resolver).
/// Identity metadata that is missing or unparsable, and a missing debug
/// object, fail the bundle; a debug object that is too short, whose
/// leading bytes are unrecognized, or whose container does not parse, is
/// an object error.
pub open spec fn spec_bundle_outcome(data: Seq<u8>, dsym: Seq<char>) -> Option<ErrorKind> {
    let adata = spec_archive_data(data);
    if !adata.contains_key(spec_info_path(dsym)) {
        Some(ErrorKind::BundleIdentityError)
    } else if spec_plist_string(adata[spec_info_path(dsym)], "CFBundleIdentifier"@) is None {
        Some(ErrorKind::BundleIdentityError)
    } else if spec_plist_string(adata[spec_info_path(dsym)], "CFBundleVersion"@) is None {
        Some(ErrorKind::BundleIdentityError)
    } else if !adata.contains_key(spec_dwarf_path(dsym)) {
        Some(ErrorKind::BundleIdentityError)
    } else {
        let obj = adata[spec_dwarf_path(dsym)];
        if obj.len() < 16 {
            Some(ErrorKind::ObjectParseError)
        } else {
            match crate::objparse::spec_object_hint(obj) {
                ObjectHint::Single => if crate::objparse::spec_macho_parses(obj) {
                    None
                } else {
                    Some(ErrorKind::ObjectParseError)
                },
                ObjectHint::Fat(_) => if crate::objparse::spec_fat_parses(obj) {
                    None
                } else {
                    Some(ErrorKind::ObjectParseError)
                },
                ObjectHint::Unknown => Some(ErrorKind::ObjectParseError),
            }
        }
    }
}

/// The first error among the bundles from position `d` on.
pub open spec fn spec_bundles_outcome(
    data: Seq<u8>,
    dsyms: Seq<Seq<char>>,
    d: int,
) -> Option<ErrorKind>
    decreases dsyms.len() - d,
{
    if d < 0 || d >= dsyms.len() {
        None
    } else {
        match spec_bundle_outcome(data, dsyms[d]) {
            Some(e) => Some(e),
            None => spec_bundles_outcome(data, dsyms, d + 1),
        }
    }
}

/// How loading an archive ends: bytes that do not open as an archive, or
/// the first failing bundle's error, or success.
pub open spec fn spec_load_outcome(data: Seq<u8>) -> Option<ErrorKind> {
    match spec_archive_names(data) {
        None => Some(ErrorKind::ArchiveError),
        Some(names) => spec_bundles_outcome(data, spec_dsym_filter(names), 0),
    }
}

/// A bundle that fails decides the whole load: the first failing bundle's
/// error is the archive's outcome.
proof fn lemma_bundle_error(
    adata: Seq<u8>,
    anames: Seq<Seq<char>>,
    bundles: Seq<Seq<char>>,
    d: int,
    e: ErrorKind,
)
    requires
        spec_archive_names(adata) == Some(anames),
        bundles == spec_dsym_filter(anames),
        spec_bundles_outcome(adata, bundles, 0) == spec_bundles_outcome(adata, bundles, d),
        0 <= d < bundles.len(),
        spec_bundle_outcome(adata, bundles[d]) == Some(e),
    ensures
        spec_load_outcome(adata) == Some(e),
{
}

/// A bundle that loads cleanly leaves the archive's outcome to the
/// bundles after it.
proof fn lemma_bundle_ok(adata: Seq<u8>, bundles: Seq<Seq<char>>, d: int)
    requires
        spec_bundle_outcome(adata, bundles[d]) is None,
        0 <= d < bundles.len(),
    ensures
        spec_bundles_outcome(adata, bundles, d) == spec_bundles_outcome(adata, bundles, d + 1),
{
}

/// The mapping an entry list denotes, later entries overwriting earlier
/// ones with the same identifier.
pub open spec fn spec_entry_map(s: Seq<(BuildId, Lookup)>) -> Map<BuildId, Lookup>
    decreases s.len(),
{
    if s.len() == 0 {
        Map::<BuildId, Lookup>::empty()
    } else {
        spec_entry_map(s.drop_last()).insert(s.last().0, s.last().1)
    }
}

/// The symbol resolution engine: the build-identifier to resolver mapping
/// produced by loading one archive, read-only after construction.
pub struct Symbolicate {
    files: Vec<(BuildId, Lookup)>,
}

impl View for Symbolicate {
    type V = Map<BuildId, Lookup>;

    closed spec fn view(&self) -> Map<BuildId, Lookup> {
        spec_entry_map(self.files@)
    }
}

impl Symbolicate {
    /// The key a resolver is registered under.
    pub open spec fn spec_uuid_key(l: Lookup) -> BuildId {
        match l.uuid {
            Some(id) => id,
            None => BuildId::zero_spec(),
        }
    }

    /// Register one resolver under its build identifier; a later resolver
    /// with the same identifier wins.
    fn insert_resolver(&mut self, l: Lookup)
        requires
            l.uuid is Some,
        ensures
            final(self)@ == old(self)@.insert(Symbolicate::spec_uuid_key(l), l),
    {
        let id = match &l.uuid {
            Some(i) => *i,
            None => unreached(),
        };
        self.files.push((id, l));
        proof {
            assert(self.files@.drop_last() =~= old(self).files@);
        }
    }

    /// Look up the resolver registered under a build identifier; an absent
    /// identifier yields nothing, never an error.
    pub fn get(&self, uuid: &BuildId) -> (r: Option<&Lookup>)
        ensures
            match r {
                Some(l) => self@.contains_key(*uuid) && *l == self@[*uuid],
                None => !self@.contains_key(*uuid),
            },
    {
        proof {
            assert(self.files@.take(self.files@.len() as int) =~= self.files@);
        }
        let mut i: usize = self.files.len();
        while i > 0
            invariant
                i <= self.files@.len(),
                spec_entry_map(self.files@).contains_key(*uuid) == spec_entry_map(
                    self.files@.take(i as int),
                ).contains_key(*uuid),
                spec_entry_map(self.files@).contains_key(*uuid) ==> spec_entry_map(
                    self.files@,
                ).index(*uuid) == spec_entry_map(self.files@.take(i as int)).index(*uuid),
            decreases i,
        {
            proof {
                assert(self.files@.take(i as int).drop_last() =~= self.files@.take(i as int - 1));
                assert(self.files@.take(i as int).last() == self.files@[i as int - 1]);
            }
            let entry = &self.files[i - 1];
            if entry.0 == *uuid {
                return Some(&entry.1);
            }
            i = i - 1;
        }
        proof {
            assert(self.files@.take(0).len() == 0);
        }
        None
    }

    /// What lookup answers for an identifier and a probe.
    pub open spec fn spec_lookup(&self, uuid: BuildId, probe: u64) -> Result<
        Option<Location>,
        ErrorKind,
    > {
        if self@.contains_key(uuid) {
            self@[uuid].spec_find_location(probe)
        } else {
            Ok(None)
        }
    }

    /// Resolve a relative probe under a build identifier to a location; an
    /// absent identifier yields nothing, never an error.
    pub fn lookup(&self, uuid: &BuildId, probe: u64) -> (r: Result<Option<Location>, ErrorKind>)
        ensures
            r == self.spec_lookup(*uuid, probe),
    {
        match self.get(uuid) {
            Some(l) => l.find_location(probe),
            None => Ok(None),
        }
    }

    /// What frames answers for an identifier and a probe.
    pub open spec fn spec_frames_lookup(&self, uuid: BuildId, probe: u64) -> Result<
        Seq<Frame>,
        ErrorKind,
    > {
        if self@.contains_key(uuid) {
            self@[uuid].spec_find_frames(probe)
        } else {
            Ok(Seq::<Frame>::empty())
        }
    }

    /// Resolve a relative probe under a build identifier to its inlined
    /// frames; an absent identifier yields the empty chain, never an error.
    pub fn frames(&self, uuid: &BuildId, probe: u64) -> (r: Result<Frames, ErrorKind>)
        ensures
            match r {
                Ok(fr) => self.spec_frames_lookup(*uuid, probe) == Ok::<Seq<Frame>, ErrorKind>(
                    fr.spec_frames(),
                ),
                Err(e) => self.spec_frames_lookup(*uuid, probe) == Err::<Seq<Frame>, ErrorKind>(e),
            },
    {
        match self.get(uuid) {
            Some(l) => l.find_frames(probe),
            None => Ok(Frames::Empty),
        }
    }

    /// Load every slice of a multi-architecture container: at most `count`
    /// resolvers come back, one for exactly each slice that extracts,
    /// carries a build identifier and whose tables parse, in slice order; a
    /// slice that fails is skipped without harming its siblings.
    pub fn load_slices(
        multi: &goblin::mach::MultiArch,
        count: usize,
        name: &String,
        info: &DSYMInfo,
    ) -> (r: Vec<Lookup>)
        ensures
            r@.len() <= count,
            r@.len() == spec_kept_slices(*multi, 0, count as int).len(),
            forall|k: int|
                #![auto]
                0 <= k < r@.len() ==> spec_kept_resolver(
                    *multi,
                    spec_kept_slices(*multi, 0, count as int)[k],
                    r@[k],
                    name@,
                    *info,
                ),
    {
        let mut out: Vec<Lookup> = Vec::new();
        let ghost mut done: Seq<int> = Seq::<int>::empty();
        proof {
            assert(Seq::<int>::empty() + spec_kept_slices(*multi, 0, count as int)
                =~= spec_kept_slices(*multi, 0, count as int));
        }
        let mut idx: usize = 0;
        while idx < count
            invariant
                out@.len() <= idx <= count,
                done.len() == out@.len(),
                spec_kept_slices(*multi, 0, count as int) == done + spec_kept_slices(
                    *multi,
                    idx as int,
                    count as int,
                ),
                forall|k: int|
                    #![auto]
                    0 <= k < out@.len() ==> spec_kept_resolver(
                        *multi,
                        done[k],
                        out@[k],
                        name@,
                        *info,
                    ),
            decreases count - idx,
        {
            if let Some(m) = crate::objparse::multiarch_get(multi, idx) {
                if let Some(l) = Lookup::load(name.clone(), info.clone(), &m) {
                    if l.uuid.is_some() {
                        out.push(l);
                        proof {
                            done = done.push(idx as int);
                            assert(spec_slice_kept(*multi, idx as int));
                            assert(done + spec_kept_slices(*multi, idx as int + 1, count as int)
                                =~= done.drop_last() + (seq![idx as int] + spec_kept_slices(
                                *multi,
                                idx as int + 1,
                                count as int,
                            )));
                        }
                    } else {
                        proof {
                            assert(!spec_slice_kept(*multi, idx as int));
                        }
                    }
                } else {
                    proof {
                        assert(!spec_slice_kept(*multi, idx as int));
                    }
                }
            } else {
                proof {
                    assert(!spec_slice_kept(*multi, idx as int));
                }
            }
            idx = idx + 1;
        }
        proof {
            assert(spec_kept_slices(*multi, idx as int, count as int).len() == 0);
            assert(done + spec_kept_slices(*multi, idx as int, count as int) =~= done);
        }
        out
    }

    /// Build the engine from the raw bytes of a symbol archive.
    ///
    /// Loading ends exactly as the named outcome of the bytes says: bytes
    /// that do not open as an archive are `ArchiveError`; a bundle whose
    /// identity metadata or debug object is missing, or whose metadata is
    /// unparsable, is `BundleIdentityError`, fatal to the whole load; a
    /// debug object that is too short, whose leading bytes are
    /// unrecognized, or whose container does not parse is
    /// `ObjectParseError`.  Within a recognized container the load is
    /// best-effort: a slice that fails to parse or lacks a build
    /// identifier is skipped, and its siblings still register.  Every
    /// registered resolver carries the identifier it is keyed under.
    #[verifier::rlimit(100)]
    pub fn new(archive: Vec<u8>) -> (r: Result<Symbolicate, ErrorKind>)
        ensures
            (match r {
                Ok(sym) => spec_load_outcome(archive@) is None && forall|id: BuildId|
                    #[trigger] sym@.contains_key(id) ==> sym@[id].uuid == Some(id),
                Err(e) => spec_load_outcome(archive@) == Some(e),
            }),
    {
        let ghost adata = archive@;
        let mut zip = match zip_open(archive) {
            Some(z) => z,
            None => {
                return Err(ErrorKind::ArchiveError);
            },
        };
        let ghost anames = zip_names(zip);
        let n = zip_len(&zip);
        let mut dsyms: Vec<String> = Vec::new();
        proof {
            assert(spec_views(dsyms@) =~= Seq::<Seq<char>>::empty());
            assert(anames.take(0).len() == 0);
        }
        let mut i: usize = 0;
        while i < n
            invariant
                i <= n,
                n == anames.len(),
                adata == archive@,
                spec_archive_names(adata) == Some(anames),
                zip_names(zip) == anames,
                zip_data(zip) == spec_archive_data(adata),
                spec_views(dsyms@) == spec_dsym_filter(anames.take(i as int)),
                forall|k: int|
                    0 <= k < dsyms@.len() ==> spec_ends_with(
                        (#[trigger] dsyms@[k])@,
                        ".dSYM/"@,
                    ),
            decreases n - i,
        {
            match zip_name_at(&zip, i) {
                Some(name) => {
                    let ghost pre = dsyms@;
                    let keep = str_ends_with(name.as_str(), ".dSYM/");
                    proof {
                        assert(anames.take(i as int + 1).drop_last() =~= anames.take(i as int));
                        assert(anames.take(i as int + 1).last() == anames[i as int]);
                    }
                    if keep {
                        dsyms.push(name);
                        proof {
                            assert(spec_views(dsyms@) =~= spec_dsym_filter(
                                anames.take(i as int),
                            ).push(anames[i as int]));
                        }
                    }
                },
                None => {
                    proof {
                        assert(false);
                    }
                },
            }
            i = i + 1;
        }
        proof {
            assert(anames.take(n as int) =~= anames);
        }
        let ghost bundles = spec_dsym_filter(anames);
        let mut sym = Symbolicate { files: Vec::new() };
        let mut d: usize = 0;
        while d < dsyms.len()
            invariant
                d <= dsyms@.len(),
                adata == archive@,
                spec_archive_names(adata) == Some(anames),
                zip_names(zip) == anames,
                zip_data(zip) == spec_archive_data(adata),
                bundles == spec_dsym_filter(anames),
                spec_views(dsyms@) == bundles,
                spec_bundles_outcome(adata, bundles, 0) == spec_bundles_outcome(
                    adata,
                    bundles,
                    d as int,
                ),
                forall|k: int|
                    0 <= k < dsyms@.len() ==> spec_ends_with(
                        (#[trigger] dsyms@[k])@,
                        ".dSYM/"@,
                    ),
                forall|id: BuildId|
                    #[trigger] sym@.contains_key(id) ==> sym@[id].uuid == Some(id),
            decreases dsyms@.len() - d,
        {
            proof {
                reveal_strlit(".dSYM/");
                assert(bundles.len() == dsyms@.len());
                assert(spec_views(dsyms@)[d as int] == dsyms@[d as int]@);
            }
            let dsym = &dsyms[d];
            let len = dsym.as_str().unicode_len();
            let no_slash = dsym.as_str().substring_char(0, len - 1);
            let last = last_component(no_slash);
            let stem1 = file_stem(last.as_str());
            let base = file_stem(stem1.as_str());
            let mut info_path = dsym.clone();
            info_path.append("Contents/Info.plist");
            proof {
                assert(info_path@ =~= spec_info_path(dsym@));
            }
            let info_bytes = match zip_read(&mut zip, info_path.as_str()) {
                Some(b) => b,
                None => {
                    proof {
                        assert(spec_bundle_outcome(adata, bundles[d as int]) == Some(
                            ErrorKind::BundleIdentityError,
                        ));
                        lemma_bundle_error(
                            adata,
                            anames,
                            bundles,
                            d as int,
                            ErrorKind::BundleIdentityError,
                        );
                    }
                    return Err(ErrorKind::BundleIdentityError);
                },
            };
            let identifier = match plist_string_entry(info_bytes.as_slice(), "CFBundleIdentifier") {
                Some(s) => s,
                None => {
                    proof {
                        assert(spec_bundle_outcome(adata, bundles[d as int]) == Some(
                            ErrorKind::BundleIdentityError,
                        ));
                        lemma_bundle_error(
                            adata,
                            anames,
                            bundles,
                            d as int,
                            ErrorKind::BundleIdentityError,
                        );
                    }
                    return Err(ErrorKind::BundleIdentityError);
                },
            };
            let version = match plist_string_entry(info_bytes.as_slice(), "CFBundleVersion") {
                Some(s) => s,
                None => {
                    proof {
                        assert(spec_bundle_outcome(adata, bundles[d as int]) == Some(
                            ErrorKind::BundleIdentityError,
                        ));
                        lemma_bundle_error(
                            adata,
                            anames,
                            bundles,
                            d as int,
                            ErrorKind::BundleIdentityError,
                        );
                    }
                    return Err(ErrorKind::BundleIdentityError);
                },
            };
            let short_version = plist_string_entry(
                info_bytes.as_slice(),
                "CFBundleShortVersionString",
            );
            let info = DSYMInfo { identifier, version, short_version };
            let mut dwarf_path = dsym.clone();
            dwarf_path.append("Contents/Resources/DWARF/");
            dwarf_path.append(base.as_str());
            proof {
                assert(dsym@.subrange(0, len - 1) =~= dsym@.take(len - 1));
                assert(dwarf_path@ =~= spec_dwarf_path(dsym@));
            }
            let dwarf = match zip_read(&mut zip, dwarf_path.as_str()) {
                Some(b) => b,
                None => {
                    proof {
                        assert(spec_bundle_outcome(adata, bundles[d as int]) == Some(
                            ErrorKind::BundleIdentityError,
                        ));
                        lemma_bundle_error(
                            adata,
                            anames,
                            bundles,
                            d as int,
                            ErrorKind::BundleIdentityError,
                        );
                    }
                    return Err(ErrorKind::BundleIdentityError);
                },
            };
            if dwarf.len() < 16 {
                proof {
                    assert(spec_bundle_outcome(adata, bundles[d as int]) == Some(
                        ErrorKind::ObjectParseError,
                    ));
                    lemma_bundle_error(
                        adata,
                        anames,
                        bundles,
                        d as int,
                        ErrorKind::ObjectParseError,
                    );
                }
                return Err(ErrorKind::ObjectParseError);
            }
            match crate::objparse::peek_hint(dwarf.as_slice()) {
                ObjectHint::Fat(count) => {
                    let multi = match crate::objparse::multiarch_new(dwarf.as_slice()) {
                        Some(m) => m,
                        None => {
                            proof {
                                assert(spec_bundle_outcome(adata, bundles[d as int]) == Some(
                                    ErrorKind::ObjectParseError,
                                ));
                                lemma_bundle_error(
                                    adata,
                                    anames,
                                    bundles,
                                    d as int,
                                    ErrorKind::ObjectParseError,
                                );
                            }
                            return Err(ErrorKind::ObjectParseError);
                        },
                    };
                    let mut lookups = Symbolicate::load_slices(&multi, count, dsym, &info);
                    proof {
                        assert forall|k: int|
                            0 <= k < lookups@.len() implies (#[trigger] lookups@[k]).uuid
                            is Some by {
                            assert(spec_kept_resolver(
                                multi,
                                spec_kept_slices(multi, 0, count as int)[k],
                                lookups@[k],
                                dsym@,
                                info,
                            ));
                        }
                    }
                    while lookups.len() > 0
                        invariant
                            forall|k: int|
                                0 <= k < lookups@.len() ==> (#[trigger] lookups@[k]).uuid is Some,
                            forall|id: BuildId|
                                #[trigger] sym@.contains_key(id) ==> sym@[id].uuid == Some(id),
                        decreases lookups@.len(),
                    {
                        let l = lookups.remove(0);
                        sym.insert_resolver(l);
                    }
                    proof {
                        assert(spec_bundle_outcome(adata, bundles[d as int]) is None);
                        lemma_bundle_ok(adata, bundles, d as int);
                    }
                },
                ObjectHint::Single => {
                    let macho = match crate::objparse::macho_parse(dwarf.as_slice()) {
                        Some(m) => m,
                        None => {
                            proof {
                                assert(spec_bundle_outcome(adata, bundles[d as int]) == Some(
                                    ErrorKind::ObjectParseError,
                                ));
                                lemma_bundle_error(
                                    adata,
                                    anames,
                                    bundles,
                                    d as int,
                                    ErrorKind::ObjectParseError,
                                );
                            }
                            return Err(ErrorKind::ObjectParseError);
                        },
                    };
                    if let Some(l) = Lookup::load(dsym.clone(), info, &macho) {
                        if l.uuid.is_some() {
                            sym.insert_resolver(l);
                        }
                    }
                    proof {
                        assert(spec_bundle_outcome(adata, bundles[d as int]) is None);
                        lemma_bundle_ok(adata, bundles, d as int);
                    }
                },
                ObjectHint::Unknown => {
                    proof {
                        assert(spec_bundle_outcome(adata, bundles[d as int]) == Some(
                            ErrorKind::ObjectParseError,
                        ));
                        lemma_bundle_error(
                            adata,
                            anames,
                            bundles,
                            d as int,
                            ErrorKind::ObjectParseError,
                        );
                    }
                    return Err(ErrorKind::ObjectParseError);
                },
            }
            d = d + 1;
        }
        proof {
            assert(spec_bundles_outcome(adata, bundles, d as int) is None);
        }
        Ok(sym)
    }
}

} // verus!
