//! The PE resource reader: parses the headers of a 32-bit portable
//! executable held in memory and gives read-only access to its section table
//! and to its resource-directory tree.
//!
//! All offsets that come out of the image are bounds-checked; a malformed or
//! truncated image yields a `ParseError`, never a panic.

use vstd::prelude::*;

use crate::bytes::{ascii_to_string, ascii_view, copy_range, le16_at, le32_at, read_u16_at,
    read_u32_at};
use crate::error::{GameError, GameResult};

verus! {

/// One resource payload together with the name of the nearest named
/// directory above it in the resource tree.
#[derive(Debug)]
pub struct DataFile {
    pub bytes: Vec<u8>,
    pub name: String,
}

/// Ghost image of a [`DataFile`].
pub struct DataFileModel {
    pub bytes: Seq<u8>,
    pub name: Seq<char>,
}

impl View for DataFile {
    type V = DataFileModel;

    open spec fn view(&self) -> DataFileModel {
        DataFileModel { bytes: self.bytes@, name: self.name@ }
    }
}

impl DataFile {
    pub fn from(name: String, bytes: Vec<u8>) -> (r: Self)
        ensures
            r.name == name,
            r.bytes == bytes,
    {
        Self { name, bytes }
    }
}

/// The flattened contents of one resource directory subtree.
#[derive(Debug)]
pub struct ExeResourceDirectory {
    pub name: String,
    pub data_files: Vec<DataFile>,
}

impl ExeResourceDirectory {
    pub fn new(name: String) -> (r: Self)
        ensures
            r.name == name,
            r.data_files@.len() == 0,
    {
        Self { name, data_files: Vec::new() }
    }
}

/// A `[start, end)` interval of file offsets into the image.
#[derive(Debug, PartialEq, Eq, Structural, Clone, Copy)]
pub struct ByteRange {
    pub start: u32,
    pub end: u32,
}

/// One entry of the section table, as stored in the image: the raw
/// eight-byte name and the virtual/file placement of the section.
#[derive(Debug)]
pub struct SectionHeader {
    pub name: Vec<u8>,
    pub virtual_size: u32,
    pub virtual_address: u32,
    pub size_of_raw_data: u32,
    pub pointer_to_raw_data: u32,
}

/// Ghost image of a [`SectionHeader`].
pub struct SectionModel {
    pub name: Seq<u8>,
    pub virtual_size: u32,
    pub virtual_address: u32,
    pub size_of_raw_data: u32,
    pub pointer_to_raw_data: u32,
}

impl View for SectionHeader {
    type V = SectionModel;

    open spec fn view(&self) -> SectionModel {
        SectionModel {
            name: self.name@,
            virtual_size: self.virtual_size,
            virtual_address: self.virtual_address,
            size_of_raw_data: self.size_of_raw_data,
            pointer_to_raw_data: self.pointer_to_raw_data,
        }
    }
}

/// The section header that a forty-byte table entry at offset `o` of the
/// image decodes to.
pub open spec fn spec_section_at(s: Seq<u8>, o: int) -> SectionModel {
    SectionModel {
        name: s.subrange(o, o + 8),
        virtual_size: le32_at(s, o + 8),
        virtual_address: le32_at(s, o + 12),
        size_of_raw_data: le32_at(s, o + 16),
        pointer_to_raw_data: le32_at(s, o + 20),
    }
}

/// File offset of the PE signature, taken from the DOS header.
pub open spec fn spec_pe_off(s: Seq<u8>) -> int {
    le32_at(s, 0x3C) as int
}

/// Number of entries in the section table.
pub open spec fn spec_num_sections(s: Seq<u8>) -> int {
    le16_at(s, spec_pe_off(s) + 6) as int
}

/// File offset of the first section-table entry.
pub open spec fn spec_section_table_off(s: Seq<u8>) -> int {
    spec_pe_off(s) + 24 + le16_at(s, spec_pe_off(s) + 20)
}

/// The load address the image's virtual-address fields are relative to.
pub open spec fn spec_image_base(s: Seq<u8>) -> u32 {
    le32_at(s, spec_pe_off(s) + 24 + 28)
}

/// Virtual address of the resource data directory.
pub open spec fn spec_resource_rva(s: Seq<u8>) -> u32 {
    le32_at(s, spec_pe_off(s) + 24 + 96 + 16)
}

/// Declared size of the resource data directory.
pub open spec fn spec_resource_size(s: Seq<u8>) -> u32 {
    le32_at(s, spec_pe_off(s) + 24 + 96 + 20)
}

/// The section table the image declares.
pub open spec fn spec_sections(s: Seq<u8>) -> Seq<SectionModel> {
    Seq::new(
        spec_num_sections(s) as nat,
        |i: int| spec_section_at(s, spec_section_table_off(s) + 40 * i),
    )
}

/// Whether the buffer carries well-formed 32-bit PE headers: DOS magic, PE
/// signature, PE32 optional-header magic, a resource data directory, and a
/// section table whose declared file ranges all lie inside the buffer.
pub open spec fn spec_headers_ok(s: Seq<u8>) -> bool {
    let p = spec_pe_off(s);
    &&& s.len() >= 0x40
    &&& s[0] == 0x4D
    &&& s[1] == 0x5A
    &&& p + 144 <= s.len()
    &&& s[p] == 0x50
    &&& s[p + 1] == 0x45
    &&& s[p + 2] == 0
    &&& s[p + 3] == 0
    &&& le16_at(s, p + 24) == 0x10B
    &&& le16_at(s, p + 20) >= 120
    &&& le32_at(s, p + 24 + 92) >= 3
    &&& spec_section_table_off(s) + 40 * spec_num_sections(s) <= s.len()
    &&& forall|i: int|
        0 <= i < spec_num_sections(s)
            ==> (#[trigger] spec_sections(s)[i]).pointer_to_raw_data
            + spec_sections(s)[i].size_of_raw_data <= s.len()
            && spec_sections(s)[i].pointer_to_raw_data
            + spec_sections(s)[i].size_of_raw_data <= u32::MAX
}

/// Whether `rva` falls inside the virtual range of section `h`.
pub open spec fn spec_section_contains_rva(h: SectionModel, rva: u32) -> bool {
    h.virtual_address <= rva < h.virtual_address + h.virtual_size
}

/// Index of the first section whose virtual range holds `rva`.
pub open spec fn spec_find_by_rva(secs: Seq<SectionModel>, rva: u32) -> Option<int>
    decreases secs.len(),
{
    if secs.len() == 0 {
        None
    } else if spec_section_contains_rva(secs[0], rva) {
        Some(0)
    } else {
        match spec_find_by_rva(secs.drop_first(), rva) {
            Some(i) => Some(i + 1),
            None => None,
        }
    }
}

/// Whether the stored section name, truncated at its first NUL byte, spells
/// exactly the (ASCII) characters `chars`.
pub open spec fn spec_name_matches(sec_name: Seq<u8>, chars: Seq<char>) -> bool {
    let k = chars.len() as int;
    &&& k <= sec_name.len()
    &&& forall|i: int|
        0 <= i < k ==> #[trigger] sec_name[i] != 0 && sec_name[i] < 0x80 && chars[i] == sec_name[i] as char
    &&& (k < sec_name.len() ==> sec_name[k] == 0)
}

/// Index of the first section whose name spells `chars`.
pub open spec fn spec_find_by_name(secs: Seq<SectionModel>, chars: Seq<char>) -> Option<int>
    decreases secs.len(),
{
    if secs.len() == 0 {
        None
    } else if spec_name_matches(secs[0].name, chars) {
        Some(0)
    } else {
        match spec_find_by_name(secs.drop_first(), chars) {
            Some(i) => Some(i + 1),
            None => None,
        }
    }
}

/// File-offset interval and virtual base of the resource data, resolved
/// through the section that holds the resource directory's virtual address;
/// `None` if the image declares no resource directory or places it outside
/// the buffer.
pub open spec fn spec_resource_region(s: Seq<u8>) -> Option<(int, int)> {
    let rva = spec_resource_rva(s);
    let size = spec_resource_size(s);
    if rva == 0 || size == 0 {
        None
    } else {
        match spec_find_by_rva(spec_sections(s), rva) {
            Some(i) => {
                let sec = spec_sections(s)[i];
                let start = sec.pointer_to_raw_data + (rva - sec.virtual_address);
                if start + size <= s.len() {
                    Some((start as int, size as int))
                } else {
                    None
                }
            },
            None => None,
        }
    }
}

/// Whether the image parses: headers well-formed and resource region
/// resolved.
pub open spec fn spec_parse_ok(s: Seq<u8>) -> bool {
    spec_headers_ok(s) && spec_resource_region(s) is Some
}

/// First-match characterization of [`spec_find_by_rva`].
pub proof fn lemma_find_by_rva_props(secs: Seq<SectionModel>, rva: u32)
    ensures
        match spec_find_by_rva(secs, rva) {
            Some(i) => 0 <= i < secs.len() && spec_section_contains_rva(secs[i], rva)
                && forall|j: int| 0 <= j < i ==> !spec_section_contains_rva(secs[j], rva),
            None => forall|j: int|
                0 <= j < secs.len() ==> !spec_section_contains_rva(secs[j], rva),
        },
    decreases secs.len(),
{
    if secs.len() > 0 {
        lemma_find_by_rva_props(secs.drop_first(), rva);
        assert forall|j: int| 1 <= j < secs.len() implies secs.drop_first()[j - 1] == secs[j] by {}
    }
}

/// A position that matches first is the one [`spec_find_by_rva`] returns.
pub proof fn lemma_find_by_rva_unique(secs: Seq<SectionModel>, rva: u32, i: int)
    requires
        0 <= i < secs.len(),
        spec_section_contains_rva(secs[i], rva),
        forall|j: int| 0 <= j < i ==> !spec_section_contains_rva(secs[j], rva),
    ensures
        spec_find_by_rva(secs, rva) == Some(i),
    decreases secs.len(),
{
    if i > 0 {
        lemma_find_by_rva_unique(secs.drop_first(), rva, i - 1);
    }
}

/// First-match characterization of [`spec_find_by_name`].
pub proof fn lemma_find_by_name_props(secs: Seq<SectionModel>, chars: Seq<char>)
    ensures
        match spec_find_by_name(secs, chars) {
            Some(i) => 0 <= i < secs.len() && spec_name_matches(secs[i].name, chars)
                && forall|j: int| 0 <= j < i ==> !spec_name_matches(secs[j].name, chars),
            None => forall|j: int|
                0 <= j < secs.len() ==> !spec_name_matches(secs[j].name, chars),
        },
    decreases secs.len(),
{
    if secs.len() > 0 {
        lemma_find_by_name_props(secs.drop_first(), chars);
        assert forall|j: int| 1 <= j < secs.len() implies secs.drop_first()[j - 1] == secs[j] by {}
    }
}

/// A position that matches first is the one [`spec_find_by_name`] returns.
pub proof fn lemma_find_by_name_unique(secs: Seq<SectionModel>, chars: Seq<char>, i: int)
    requires
        0 <= i < secs.len(),
        spec_name_matches(secs[i].name, chars),
        forall|j: int| 0 <= j < i ==> !spec_name_matches(secs[j].name, chars),
    ensures
        spec_find_by_name(secs, chars) == Some(i),
    decreases secs.len(),
{
    if i > 0 {
        lemma_find_by_name_unique(secs.drop_first(), chars, i - 1);
    }
}

/// Read-only structural access to a parsed PE image: the image base, the
/// section table, and the location of the resource data.
pub struct ExeParser {
    pub image_base: u32,
    pub section_headers: Vec<SectionHeader>,
    /// Virtual address the resource directory's internal offsets are
    /// relative to.
    pub resource_rva: u32,
    /// File offset of the first byte of the resource data.
    pub resource_start: usize,
    /// Number of bytes of resource data, as the data directory declares it.
    pub resource_size: usize,
}

impl ExeParser {
    /// The parser holds exactly what the image `s` declares.
    pub open spec fn wf(&self, s: Seq<u8>) -> bool {
        &&& spec_parse_ok(s)
        &&& self.image_base == spec_image_base(s)
        &&& self.section_headers@.map_values(|h: SectionHeader| h@) == spec_sections(s)
        &&& self.resource_rva == spec_resource_rva(s)
        &&& spec_resource_region(s) == Some(
            (self.resource_start as int, self.resource_size as int),
        )
    }

    /// Parses the PE headers out of `file`. Fails with a `ParseError` if the
    /// buffer is not a well-formed 32-bit PE image or if its resource
    /// directory cannot be located inside the buffer.
    pub fn from(file: &Vec<u8>) -> (r: GameResult<ExeParser>)
        ensures
            r is Ok <==> spec_parse_ok(file@),
            r matches Ok(p) ==> p.wf(file@),
            !spec_headers_ok(file@) ==> (r matches Err(GameError::ParseError(m)) && m@
                == "Failed to parse PE file"@),
            spec_headers_ok(file@) && !spec_parse_ok(file@) ==> (r matches Err(
                GameError::ParseError(m),
            ) && m@ == "Failed to parse resources."@),
    {
        let len = file.len();
        if !(len >= 0x40 && file[0] == 0x4D && file[1] == 0x5A) {
            return Err(GameError::ParseError(String::from_str("Failed to parse PE file")));
        }
        let p = read_u32_at(file, 0x3C) as usize;
        if !(p <= len && len - p >= 144) {
            return Err(GameError::ParseError(String::from_str("Failed to parse PE file")));
        }
        if !(file[p] == 0x50 && file[p + 1] == 0x45 && file[p + 2] == 0 && file[p + 3] == 0) {
            return Err(GameError::ParseError(String::from_str("Failed to parse PE file")));
        }
        let opt_magic = read_u16_at(file, p + 24);
        let opt_size = read_u16_at(file, p + 20);
        let num_dirs = read_u32_at(file, p + 24 + 92);
        if !(opt_magic == 0x10B && opt_size >= 120 && num_dirs >= 3) {
            return Err(GameError::ParseError(String::from_str("Failed to parse PE file")));
        }
        let num_sections = read_u16_at(file, p + 6) as usize;
        let table_off = match p.checked_add(24 + opt_size as usize) {
            Some(t) => t,
            None => {
                return Err(GameError::ParseError(String::from_str("Failed to parse PE file")));
            },
        };
        if !(table_off <= len && (len - table_off) / 40 >= num_sections) {
            return Err(GameError::ParseError(String::from_str("Failed to parse PE file")));
        }
        assert(table_off + 40 * num_sections <= len) by (nonlinear_arith)
            requires
                table_off <= len,
                (len - table_off) / 40 >= num_sections,
        ;

        let mut sections: Vec<SectionHeader> = Vec::new();
        let mut i: usize = 0;
        while i < num_sections
            invariant
                0 <= i <= num_sections,
                table_off + 40 * num_sections <= len,
                len == file@.len(),
                table_off == spec_section_table_off(file@),
                num_sections == spec_num_sections(file@),
                sections@.len() == i,
                forall|j: int|
                    0 <= j < i ==> (#[trigger] sections@[j])@ == spec_sections(file@)[j],
                forall|j: int|
                    0 <= j < i ==> (#[trigger] sections@[j])@.pointer_to_raw_data
                        + sections@[j]@.size_of_raw_data <= len && sections@[j]@.pointer_to_raw_data
                        + sections@[j]@.size_of_raw_data <= u32::MAX,
            decreases num_sections - i,
        {
            assert(table_off + 40 * i + 40 <= len) by (nonlinear_arith)
                requires
                    table_off + 40 * num_sections <= len,
                    0 <= i < num_sections,
            ;
            let o = table_off + 40 * i;
            let h = SectionHeader {
                name: copy_range(file, o, o + 8),
                virtual_size: read_u32_at(file, o + 8),
                virtual_address: read_u32_at(file, o + 12),
                size_of_raw_data: read_u32_at(file, o + 16),
                pointer_to_raw_data: read_u32_at(file, o + 20),
            };
            assert(h@ == spec_sections(file@)[i as int]);
            // The declared file range of every section must stay inside the
            // buffer and inside the 32-bit offset space.
            let raw_end = h.pointer_to_raw_data as u64 + h.size_of_raw_data as u64;
            if raw_end > len as u64 || raw_end > u32::MAX as u64 {
                proof {
                    assert(!spec_headers_ok(file@));
                }
                return Err(GameError::ParseError(String::from_str("Failed to parse PE file")));
            }
            sections.push(h);
            i = i + 1;
        }

        let image_base = read_u32_at(file, p + 24 + 28);
        let resource_rva = read_u32_at(file, p + 24 + 96 + 16);
        let resource_size = read_u32_at(file, p + 24 + 96 + 20);

        proof {
            assert forall|j: int| 0 <= j < spec_num_sections(file@) implies (#[trigger] spec_sections(
                file@,
            )[j]).pointer_to_raw_data + spec_sections(file@)[j].size_of_raw_data <= file@.len()
                && spec_sections(file@)[j].pointer_to_raw_data
                + spec_sections(file@)[j].size_of_raw_data <= u32::MAX by {
                assert(sections@[j]@ == spec_sections(file@)[j]);
            }
            assert(spec_headers_ok(file@));
        }

        if resource_rva == 0 || resource_size == 0 {
            return Err(GameError::ParseError(String::from_str("Failed to parse resources.")));
        }

        // Resolve the section that holds the resource directory.
        let mut k: usize = 0;
        let n = sections.len();
        while k < n
            invariant
                0 <= k <= n,
                n == sections@.len(),
                forall|j: int|
                    0 <= j < k ==> !spec_section_contains_rva(
                        (#[trigger] sections@[j])@,
                        resource_rva,
                    ),
                sections@.map_values(|h: SectionHeader| h@) == spec_sections(file@),
                len == file@.len(),
                resource_rva == spec_resource_rva(file@),
                resource_size == spec_resource_size(file@),
                resource_rva != 0,
                resource_size != 0,
                spec_headers_ok(file@),
                image_base == spec_image_base(file@),
                forall|j: int|
                    0 <= j < n ==> (#[trigger] sections@[j])@.pointer_to_raw_data
                        + sections@[j]@.size_of_raw_data <= len,
            decreases n - k,
        {
            let sec = &sections[k];
            if sec.virtual_address <= resource_rva
                && (resource_rva as u64) < sec.virtual_address as u64 + sec.virtual_size as u64 {
                proof {
                    assert(sections@.map_values(|h: SectionHeader| h@)[k as int] == sections@[
                    k as int]@);
                    lemma_find_by_rva_unique(spec_sections(file@), resource_rva, k as int);
                }
                let start64 = sec.pointer_to_raw_data as u64 + (resource_rva
                    - sec.virtual_address) as u64;
                if start64 + resource_size as u64 > len as u64 {
                    return Err(
                        GameError::ParseError(String::from_str("Failed to parse resources.")),
                    );
                }
                let parser = ExeParser {
                    image_base,
                    section_headers: sections,
                    resource_rva,
                    resource_start: start64 as usize,
                    resource_size: resource_size as usize,
                };
                return Ok(parser);
            }
            proof {
                assert(sections@.map_values(|h: SectionHeader| h@)[k as int] == sections@[
                k as int]@);
            }
            k = k + 1;
        }
        proof {
            lemma_find_by_rva_props(spec_sections(file@), resource_rva);
            assert forall|j: int| 0 <= j < spec_sections(file@).len()
                implies !spec_section_contains_rva(spec_sections(file@)[j], resource_rva) by {
                assert(sections@.map_values(|h: SectionHeader| h@)[j] == sections@[j]@);
            }
        }
        Err(GameError::ParseError(String::from_str("Failed to parse resources.")))
    }

    /// Looks a section up by exact name match and returns its declared file
    /// byte range; `Ok(None)` if no section carries that name.
    pub fn get_named_section_byte_range(&self, name: String) -> (r: GameResult<Option<ByteRange>>)
        requires
            exists|s: Seq<u8>| self.wf(s),
        ensures
            r is Ok,
            match spec_find_by_name(
                self.section_headers@.map_values(|h: SectionHeader| h@),
                name@,
            ) {
                Some(i) => r matches Ok(Some(br))
                    && br.start == self.section_headers@[i]@.pointer_to_raw_data && br.end
                    == self.section_headers@[i]@.pointer_to_raw_data
                    + self.section_headers@[i]@.size_of_raw_data,
                None => r == Ok::<Option<ByteRange>, GameError>(None),
            },
    {
        match self.find_section_by_name(&name) {
            Some(idx) => {
                let sec = &self.section_headers[idx];
                proof {
                    let s = choose|s: Seq<u8>| self.wf(s);
                    assert(self.section_headers@.map_values(|h: SectionHeader| h@)[idx as int]
                        == self.section_headers@[idx as int]@);
                    assert(spec_sections(s)[idx as int] == self.section_headers@[idx as int]@);
                }
                let end = sec.pointer_to_raw_data as u64 + sec.size_of_raw_data as u64;
                assert(end <= u32::MAX as u64);
                Ok(Some(ByteRange { start: sec.pointer_to_raw_data, end: end as u32 }))
            },
            None => Ok(None),
        }
    }

    /// Index of the first section whose NUL-truncated name spells `name`.
    pub fn find_section_by_name(&self, name: &String) -> (r: Option<usize>)
        ensures
            match spec_find_by_name(
                self.section_headers@.map_values(|h: SectionHeader| h@),
                name@,
            ) {
                Some(i) => 0 <= i < self.section_headers@.len() && r == Some(i as usize),
                None => r is None,
            },
    {
        let ghost secs = self.section_headers@.map_values(|h: SectionHeader| h@);
        let n = self.section_headers.len();
        let mut k: usize = 0;
        while k < n
            invariant
                0 <= k <= n,
                n == self.section_headers@.len(),
                secs == self.section_headers@.map_values(|h: SectionHeader| h@),
                forall|j: int| 0 <= j < k ==> !spec_name_matches(secs[j].name, name@),
            decreases n - k,
        {
            proof {
                assert(secs[k as int] == self.section_headers@[k as int]@);
            }
            if section_name_matches(&self.section_headers[k].name, name) {
                proof {
                    lemma_find_by_name_unique(secs, name@, k as int);
                }
                return Some(k);
            }
            k = k + 1;
        }
        proof {
            lemma_find_by_name_props(secs, name@);
        }
        None
    }

    /// Index of the first section whose virtual range holds `rva`.
    pub fn find_section_by_rva(&self, rva: u32) -> (r: Option<usize>)
        ensures
            match spec_find_by_rva(
                self.section_headers@.map_values(|h: SectionHeader| h@),
                rva,
            ) {
                Some(i) => 0 <= i < self.section_headers@.len() && r == Some(i as usize),
                None => r is None,
            },
    {
        let ghost secs = self.section_headers@.map_values(|h: SectionHeader| h@);
        let n = self.section_headers.len();
        let mut k: usize = 0;
        while k < n
            invariant
                0 <= k <= n,
                n == self.section_headers@.len(),
                secs == self.section_headers@.map_values(|h: SectionHeader| h@),
                forall|j: int| 0 <= j < k ==> !spec_section_contains_rva(secs[j], rva),
            decreases n - k,
        {
            proof {
                assert(secs[k as int] == self.section_headers@[k as int]@);
            }
            let sec = &self.section_headers[k];
            if sec.virtual_address <= rva && (rva as u64) < sec.virtual_address as u64
                + sec.virtual_size as u64 {
                proof {
                    lemma_find_by_rva_unique(secs, rva, k as int);
                }
                return Some(k);
            }
            k = k + 1;
        }
        proof {
            lemma_find_by_rva_props(secs, rva);
        }
        None
    }
}

/// How deep the resource-directory walk will follow sub-directories. The
/// format nests three levels (type, name, language); anything deeper is
/// treated as malformed and skipped.
pub const RESOURCE_DIR_MAX_DEPTH: u32 = 16;

/// Number of entries of the resource directory at region-relative offset
/// `d`: named entries plus ID entries.
pub open spec fn spec_dir_entry_count(s: Seq<u8>, rs: int, d: int) -> int {
    le16_at(s, rs + d + 12) + le16_at(s, rs + d + 14)
}

/// Whether the directory header at region-relative offset `d` and its whole
/// entry table lie inside the resource region.
pub open spec fn spec_dir_ok(s: Seq<u8>, rs: int, rz: int, d: int) -> bool {
    &&& 0 <= d
    &&& d + 16 <= rz
    &&& d + 16 + 8 * spec_dir_entry_count(s, rs, d) <= rz
}

/// First field of entry `i` of the directory at `d`: a name offset or an ID.
pub open spec fn spec_entry_name_field(s: Seq<u8>, rs: int, d: int, i: int) -> u32 {
    le32_at(s, rs + d + 16 + 8 * i)
}

/// Second field of entry `i` of the directory at `d`: offset of a
/// sub-directory (high bit set) or of a leaf data entry.
pub open spec fn spec_entry_off_field(s: Seq<u8>, rs: int, d: int, i: int) -> u32 {
    le32_at(s, rs + d + 16 + 8 * i + 4)
}

/// Whether the length-prefixed UTF-16 name at region-relative offset `no`
/// lies inside the region and holds ASCII units only. Names outside ASCII
/// are treated as unresolvable; the walk then keeps the inherited name.
pub open spec fn spec_res_name_ok(s: Seq<u8>, rs: int, rz: int, no: int) -> bool {
    &&& 0 <= no
    &&& no + 2 <= rz
    &&& no + 2 + 2 * (le16_at(s, rs + no) as int) <= rz
    &&& forall|j: int|
        0 <= j < le16_at(s, rs + no) ==> #[trigger] spec_res_name_unit(s, rs, no, j) < 0x80
}

/// UTF-16 unit `j` of the resource name stored at region-relative offset
/// `no`.
pub open spec fn spec_res_name_unit(s: Seq<u8>, rs: int, no: int, j: int) -> u16 {
    le16_at(s, rs + no + 2 + 2 * j)
}

/// The characters of the resource name stored at region-relative offset
/// `no`.
pub open spec fn spec_res_name(s: Seq<u8>, rs: int, no: int) -> Seq<char> {
    Seq::new(
        le16_at(s, rs + no) as nat,
        |j: int| (spec_res_name_unit(s, rs, no, j) as u8) as char,
    )
}

/// The decimal digits of `n`, most significant first.
pub open spec fn spec_decimal(n: int) -> Seq<char>
    decreases n,
{
    if n < 10 {
        seq![((0x30 + if n >= 0 { n } else { 0 }) as u8) as char]
    } else {
        spec_decimal(n / 10) + seq![((0x30 + n % 10) as u8) as char]
    }
}

/// The name an entry's first field resolves to: `#` and the decimal ID for
/// an ID entry, the stored string for a named entry whose name is readable,
/// and the inherited name `inh` otherwise.
pub open spec fn spec_entry_dir_name(
    s: Seq<u8>,
    rs: int,
    rz: int,
    name_field: u32,
    inh: Seq<char>,
) -> Seq<char> {
    if name_field >= 0x80000000 {
        if spec_res_name_ok(s, rs, rz, name_field - 0x80000000) {
            spec_res_name(s, rs, name_field - 0x80000000)
        } else {
            inh
        }
    } else {
        seq!['#'] + spec_decimal(name_field as int)
    }
}

/// Whether the leaf data entry at region-relative offset `e` is readable:
/// its sixteen-byte record lies in the region and the payload it points at
/// (an RVA at or above the region's virtual base) does too.
pub open spec fn spec_leaf_ok(s: Seq<u8>, rs: int, rz: int, vb: u32, e: int) -> bool {
    &&& 0 <= e
    &&& e + 16 <= rz
    &&& le32_at(s, rs + e) >= vb
    &&& (le32_at(s, rs + e) - vb) + le32_at(s, rs + e + 4) <= rz
}

/// The payload bytes of the leaf data entry at region-relative offset `e`.
pub open spec fn spec_leaf_bytes(s: Seq<u8>, rs: int, vb: u32, e: int) -> Seq<u8> {
    let off = rs + (le32_at(s, rs + e) - vb);
    s.subrange(off, off + le32_at(s, rs + e + 4))
}

/// The data files that flattening the directory at region-relative offset
/// `d` yields, starting at entry `i`, with inherited name `inh`. Malformed
/// entries contribute nothing; a sub-directory met with no fuel left is
/// treated as malformed.
pub open spec fn spec_flatten(
    s: Seq<u8>,
    rs: int,
    rz: int,
    vb: u32,
    d: int,
    i: int,
    inh: Seq<char>,
    fuel: nat,
) -> Seq<DataFileModel>
    decreases fuel, spec_dir_entry_count(s, rs, d) - i,
{
    if !spec_dir_ok(s, rs, rz, d) || i < 0 || i >= spec_dir_entry_count(s, rs, d) {
        Seq::empty()
    } else {
        let name_field = spec_entry_name_field(s, rs, d, i);
        let off_field = spec_entry_off_field(s, rs, d, i);
        let entry_files: Seq<DataFileModel> = if off_field >= 0x80000000 {
            if fuel == 0 {
                Seq::empty()
            } else {
                let sub = off_field - 0x80000000;
                let new_inh = spec_entry_dir_name(s, rs, rz, name_field, inh);
                spec_flatten(s, rs, rz, vb, sub as int, 0, new_inh, (fuel - 1) as nat)
            }
        } else {
            if spec_leaf_ok(s, rs, rz, vb, off_field as int) {
                seq![
                    DataFileModel { name: inh, bytes: spec_leaf_bytes(s, rs, vb, off_field as int) },
                ]
            } else {
                Seq::empty()
            }
        };
        entry_files + spec_flatten(s, rs, rz, vb, d, i + 1, inh, fuel)
    }
}

impl ExeParser {
    /// Decodes the length-prefixed UTF-16 resource name at region-relative
    /// offset `no`; `None` if it runs outside the region or holds a
    /// non-ASCII unit.
    pub fn read_res_name(&self, file: &Vec<u8>, no: u32) -> (r: Option<String>)
        requires
            self.resource_start + self.resource_size <= file@.len(),
        ensures
            match r {
                Some(name) => spec_res_name_ok(
                    file@,
                    self.resource_start as int,
                    self.resource_size as int,
                    no as int,
                ) && name@ == spec_res_name(file@, self.resource_start as int, no as int),
                None => !spec_res_name_ok(
                    file@,
                    self.resource_start as int,
                    self.resource_size as int,
                    no as int,
                ),
            },
    {
        let _flen = file.len();
        let rs = self.resource_start;
        let rz = self.resource_size;
        if !(no as u64 + 2 <= rz as u64) {
            return None;
        }
        let count = read_u16_at(file, rs + no as usize) as usize;
        if !(no as u64 + 2 + 2 * count as u64 <= rz as u64) {
            return None;
        }
        let mut units: Vec<u8> = Vec::new();
        let mut j: usize = 0;
        while j < count
            invariant
                0 <= j <= count,
                file@.len() <= usize::MAX,
                rs + no as usize + 2 + 2 * count <= file@.len(),
                count == le16_at(file@, rs + no as int),
                units@.len() == j,
                rs == self.resource_start,
                forall|t: int|
                    0 <= t < j ==> #[trigger] spec_res_name_unit(file@, rs as int, no as int, t)
                        < 0x80 && units@[t] == spec_res_name_unit(
                        file@,
                        rs as int,
                        no as int,
                        t,
                    ) as u8,
            decreases count - j,
        {
            let u = read_u16_at(file, rs + no as usize + 2 + 2 * j);
            assert(u == spec_res_name_unit(file@, rs as int, no as int, j as int));
            if u >= 0x80 {
                return None;
            }
            units.push(u as u8);
            j = j + 1;
        }
        proof {
            assert forall|t: int| 0 <= t < units@.len() implies units@[t] < 0x80 by {
                assert(spec_res_name_unit(file@, rs as int, no as int, t) < 0x80);
            }
        }
        let name = ascii_to_string(&units);
        proof {
            assert(name@ =~= spec_res_name(file@, rs as int, no as int));
        }
        Some(name)
    }

    /// Validates the resource root directory's header and returns its entry
    /// count.
    fn root_entry_count(&self, file: &Vec<u8>) -> (r: Option<usize>)
        requires
            self.resource_start + self.resource_size <= file@.len(),
        ensures
            match r {
                Some(n) => spec_dir_ok(
                    file@,
                    self.resource_start as int,
                    self.resource_size as int,
                    0,
                ) && n == spec_dir_entry_count(file@, self.resource_start as int, 0),
                None => !spec_dir_ok(
                    file@,
                    self.resource_start as int,
                    self.resource_size as int,
                    0,
                ),
            },
    {
        let _flen = file.len();
        let rs = self.resource_start;
        let rz = self.resource_size;
        if rz < 16 {
            return None;
        }
        let n_named = read_u16_at(file, rs + 12) as usize;
        let n_id = read_u16_at(file, rs + 14) as usize;
        let n = n_named + n_id;
        if !(16 + 8 * n as u64 <= rz as u64) {
            return None;
        }
        Some(n)
    }

    /// Resolves the root resource directory named `name` and flattens all
    /// its descendant leaf entries into a list of data files, each tagged
    /// with the nearest resolvable directory name above it (`"unknown"`
    /// until one is met). Fails with a `ParseError` if no sub-directory of
    /// that name hangs off the resource root.
    pub fn get_resource_dir(&self, file: &Vec<u8>, name: String) -> (r: GameResult<
        ExeResourceDirectory,
    >)
        requires
            self.wf(file@),
        ensures
            match spec_find_named_root_dir(
                file@,
                self.resource_start as int,
                self.resource_size as int,
                name@,
                0,
            ) {
                Some(sub) => r matches Ok(dir) && dir.name == name
                    && dir.data_files@.map_values(|df: DataFile| df@) == spec_flatten(
                    file@,
                    self.resource_start as int,
                    self.resource_size as int,
                    self.resource_rva,
                    sub as int,
                    0,
                    "unknown"@,
                    RESOURCE_DIR_MAX_DEPTH as nat,
                ),
                None => r matches Err(GameError::ParseError(m)) && m@
                    == "Failed to find resource directory."@,
            },
    {
        let ghost s = file@;
        let ghost rsi = self.resource_start as int;
        let ghost rzi = self.resource_size as int;
        proof {
            assert(self.resource_start + self.resource_size <= file@.len());
        }
        let _flen = file.len();
        let rs = self.resource_start;
        let n = match self.root_entry_count(file) {
            Some(n) => n,
            None => {
                return Err(
                    GameError::ParseError(
                        String::from_str("Failed to find resource directory."),
                    ),
                );
            },
        };
        let mut i: usize = 0;
        while i < n
            invariant
                0 <= i <= n,
                self.wf(file@),
                s == file@,
                rsi == self.resource_start as int,
                rzi == self.resource_size as int,
                rs == self.resource_start,
                self.resource_start + self.resource_size <= file@.len(),
                file@.len() <= usize::MAX,
                spec_dir_ok(s, rsi, rzi, 0),
                n == spec_dir_entry_count(s, rsi, 0),
                spec_find_named_root_dir(s, rsi, rzi, name@, 0) == spec_find_named_root_dir(
                    s,
                    rsi,
                    rzi,
                    name@,
                    i as int,
                ),
            decreases n - i,
        {
            let e = 16 + 8 * i;
            let nf = read_u32_at(file, rs + e);
            let of = read_u32_at(file, rs + e + 4);
            assert(nf == spec_entry_name_field(s, rsi, 0, i as int));
            assert(of == spec_entry_off_field(s, rsi, 0, i as int));
            if nf >= 0x80000000 && of >= 0x80000000 {
                if let Some(nm) = self.read_res_name(file, nf - 0x80000000) {
                    if nm == name {
                        let sub = of - 0x80000000;
                        let mut dir_data = ExeResourceDirectory::new(name);
                        self.read_dir(
                            file,
                            sub,
                            &mut dir_data,
                            String::from_str("unknown"),
                            RESOURCE_DIR_MAX_DEPTH,
                        );
                        proof {
                            assert(dir_data.data_files@.map_values(|df: DataFile| df@)
                                =~= spec_flatten(
                                s,
                                rsi,
                                rzi,
                                self.resource_rva,
                                sub as int,
                                0,
                                "unknown"@,
                                RESOURCE_DIR_MAX_DEPTH as nat,
                            ));
                        }
                        return Ok(dir_data);
                    }
                }
            }
            i = i + 1;
        }
        Err(GameError::ParseError(String::from_str("Failed to find resource directory.")))
    }

    /// Resolves the resource directory of the well-known numeric bitmap
    /// resource type and flattens it, exactly as `get_resource_dir` does for
    /// a named directory. Fails with a `ParseError` if the root has no
    /// bitmap entry.
    pub fn get_bitmap_dir(&self, file: &Vec<u8>) -> (r: GameResult<ExeResourceDirectory>)
        requires
            self.wf(file@),
        ensures
            match spec_find_id_root_dir(
                file@,
                self.resource_start as int,
                self.resource_size as int,
                RT_BITMAP_ID,
                0,
            ) {
                Some(sub) => r matches Ok(dir) && dir.name@ == "Bitmap"@
                    && dir.data_files@.map_values(|df: DataFile| df@) == spec_flatten(
                    file@,
                    self.resource_start as int,
                    self.resource_size as int,
                    self.resource_rva,
                    sub as int,
                    0,
                    "unknown"@,
                    RESOURCE_DIR_MAX_DEPTH as nat,
                ),
                None => r matches Err(GameError::ParseError(m)) && m@
                    == "Failed to open bitmap directory."@,
            },
    {
        let ghost s = file@;
        let ghost rsi = self.resource_start as int;
        let ghost rzi = self.resource_size as int;
        proof {
            assert(self.resource_start + self.resource_size <= file@.len());
        }
        let _flen = file.len();
        let rs = self.resource_start;
        let n = match self.root_entry_count(file) {
            Some(n) => n,
            None => {
                return Err(
                    GameError::ParseError(String::from_str("Failed to open bitmap directory.")),
                );
            },
        };
        let mut i: usize = 0;
        while i < n
            invariant
                0 <= i <= n,
                self.wf(file@),
                s == file@,
                rsi == self.resource_start as int,
                rzi == self.resource_size as int,
                rs == self.resource_start,
                self.resource_start + self.resource_size <= file@.len(),
                file@.len() <= usize::MAX,
                spec_dir_ok(s, rsi, rzi, 0),
                n == spec_dir_entry_count(s, rsi, 0),
                spec_find_id_root_dir(s, rsi, rzi, RT_BITMAP_ID, 0) == spec_find_id_root_dir(
                    s,
                    rsi,
                    rzi,
                    RT_BITMAP_ID,
                    i as int,
                ),
            decreases n - i,
        {
            let e = 16 + 8 * i;
            let nf = read_u32_at(file, rs + e);
            let of = read_u32_at(file, rs + e + 4);
            assert(nf == spec_entry_name_field(s, rsi, 0, i as int));
            assert(of == spec_entry_off_field(s, rsi, 0, i as int));
            if nf < 0x80000000 && nf == RT_BITMAP_ID && of >= 0x80000000 {
                let sub = of - 0x80000000;
                let mut dir_data = ExeResourceDirectory::new(String::from_str("Bitmap"));
                self.read_dir(
                    file,
                    sub,
                    &mut dir_data,
                    String::from_str("unknown"),
                    RESOURCE_DIR_MAX_DEPTH,
                );
                proof {
                    assert(dir_data.data_files@.map_values(|df: DataFile| df@) =~= spec_flatten(
                        s,
                        rsi,
                        rzi,
                        self.resource_rva,
                        sub as int,
                        0,
                        "unknown"@,
                        RESOURCE_DIR_MAX_DEPTH as nat,
                    ));
                }
                return Ok(dir_data);
            }
            i = i + 1;
        }
        Err(GameError::ParseError(String::from_str("Failed to open bitmap directory.")))
    }

    /// Flattens the resource directory at region-relative offset `dir_off`
    /// into `dir_data`, tagging each leaf with the nearest resolvable
    /// directory name met on the way down, `last_dir_name` to begin with.
    /// Entries that run outside the resource region are skipped rather than
    /// failing the whole walk.
    pub fn read_dir(
        &self,
        file: &Vec<u8>,
        dir_off: u32,
        dir_data: &mut ExeResourceDirectory,
        last_dir_name: String,
        fuel: u32,
    )
        requires
            self.resource_start + self.resource_size <= file@.len(),
        ensures
            final(dir_data).name == old(dir_data).name,
            final(dir_data).data_files@.map_values(|df: DataFile| df@) == old(
                dir_data,
            ).data_files@.map_values(|df: DataFile| df@) + spec_flatten(
                file@,
                self.resource_start as int,
                self.resource_size as int,
                self.resource_rva,
                dir_off as int,
                0,
                last_dir_name@,
                fuel as nat,
            ),
        decreases fuel,
    {
        let ghost vf = |df: DataFile| df@;
        let ghost s = file@;
        let ghost rsi = self.resource_start as int;
        let ghost rzi = self.resource_size as int;
        let vb = self.resource_rva;
        let _flen = file.len();
        let rs = self.resource_start;
        let rz = self.resource_size;
        let d = dir_off as usize;
        if !(dir_off as u64 + 16 <= rz as u64) {
            proof {
                assert(dir_data.data_files@.map_values(vf) =~= old(dir_data).data_files@.map_values(
                    vf,
                ) + spec_flatten(s, rsi, rzi, vb, d as int, 0, last_dir_name@, fuel as nat));
            }
            return ;
        }
        let n_named = read_u16_at(file, rs + d + 12) as usize;
        let n_id = read_u16_at(file, rs + d + 14) as usize;
        let n = n_named + n_id;
        assert(n == spec_dir_entry_count(s, rsi, d as int));
        if !(d as u64 + 16 + 8 * n as u64 <= rz as u64) {
            proof {
                assert(!spec_dir_ok(s, rsi, rzi, d as int));
                assert(dir_data.data_files@.map_values(vf) =~= old(dir_data).data_files@.map_values(
                    vf,
                ) + spec_flatten(s, rsi, rzi, vb, d as int, 0, last_dir_name@, fuel as nat));
            }
            return ;
        }
        assert(spec_dir_ok(s, rsi, rzi, d as int));
        let mut i: usize = 0;
        while i < n
            invariant
                0 <= i <= n,
                n == spec_dir_entry_count(s, rsi, d as int),
                spec_dir_ok(s, rsi, rzi, d as int),
                s == file@,
                rsi == self.resource_start as int,
                rzi == self.resource_size as int,
                vb == self.resource_rva,
                rs == self.resource_start,
                rz == self.resource_size,
                d == dir_off as usize,
                rs + rz <= file@.len(),
                file@.len() <= usize::MAX,
                vf == (|df: DataFile| df@),
                dir_data.name == old(dir_data).name,
                old(dir_data).data_files@.map_values(vf) + spec_flatten(
                    s,
                    rsi,
                    rzi,
                    vb,
                    d as int,
                    0,
                    last_dir_name@,
                    fuel as nat,
                ) == dir_data.data_files@.map_values(vf) + spec_flatten(
                    s,
                    rsi,
                    rzi,
                    vb,
                    d as int,
                    i as int,
                    last_dir_name@,
                    fuel as nat,
                ),
            decreases n - i,
        {
            let ghost pre_models = dir_data.data_files@.map_values(vf);
            let ghost tail = spec_flatten(
                s,
                rsi,
                rzi,
                vb,
                d as int,
                i + 1,
                last_dir_name@,
                fuel as nat,
            );
            let e = d + 16 + 8 * i;
            let name_field = read_u32_at(file, rs + e);
            let off_field = read_u32_at(file, rs + e + 4);
            assert(name_field == spec_entry_name_field(s, rsi, d as int, i as int));
            assert(off_field == spec_entry_off_field(s, rsi, d as int, i as int));
            if off_field >= 0x80000000 {
                if fuel > 0 {
                    let sub = off_field - 0x80000000;
                    let new_name: String = if name_field >= 0x80000000 {
                        match self.read_res_name(file, name_field - 0x80000000) {
                            Some(nm) => nm,
                            None => last_dir_name.clone(),
                        }
                    } else {
                        let digits = u32_decimal_bytes(name_field);
                        let nm = String::from_str("#").concat(ascii_to_string(&digits).as_str());
                        proof {
                            reveal_strlit("#");
                            assert(nm@ =~= seq!['#'] + spec_decimal(name_field as int));
                        }
                        nm
                    };
                    assert(new_name@ == spec_entry_dir_name(
                        s,
                        rsi,
                        rzi,
                        name_field,
                        last_dir_name@,
                    ));
                    self.read_dir(file, sub, dir_data, new_name, fuel - 1);
                    proof {
                        assert(dir_data.data_files@.map_values(vf) == pre_models + spec_flatten(
                            s,
                            rsi,
                            rzi,
                            vb,
                            sub as int,
                            0,
                            spec_entry_dir_name(s, rsi, rzi, name_field, last_dir_name@),
                            (fuel - 1) as nat,
                        ));
                    }
                }
            } else {
                let e2 = off_field as usize;
                if off_field as u64 + 16 <= rz as u64 {
                    let drva = read_u32_at(file, rs + e2);
                    let dsz = read_u32_at(file, rs + e2 + 4);
                    if drva >= vb && (drva - vb) as u64 + dsz as u64 <= rz as u64 {
                        let pstart = rs + (drva - vb) as usize;
                        let bytes = copy_range(file, pstart, pstart + dsz as usize);
                        assert(bytes@ == spec_leaf_bytes(s, rsi, vb, e2 as int));
                        let df = DataFile::from(last_dir_name.clone(), bytes);
                        dir_data.data_files.push(df);
                        proof {
                            assert(dir_data.data_files@.map_values(vf) =~= pre_models + seq![
                                DataFileModel {
                                    name: last_dir_name@,
                                    bytes: spec_leaf_bytes(s, rsi, vb, e2 as int),
                                },
                            ]);
                        }
                    }
                }
            }
            proof {
                let fi = spec_flatten(s, rsi, rzi, vb, d as int, i as int, last_dir_name@,
                fuel as nat);
                let cur = dir_data.data_files@.map_values(vf);
                assert(old(dir_data).data_files@.map_values(vf) + spec_flatten(
                    s,
                    rsi,
                    rzi,
                    vb,
                    d as int,
                    0,
                    last_dir_name@,
                    fuel as nat,
                ) =~= cur + tail);
            }
            i = i + 1;
        }
        proof {
            assert(spec_flatten(s, rsi, rzi, vb, d as int, n as int, last_dir_name@, fuel as nat)
                =~= Seq::<DataFileModel>::empty());
            assert(dir_data.data_files@.map_values(vf) =~= old(dir_data).data_files@.map_values(vf)
                + spec_flatten(s, rsi, rzi, vb, d as int, 0, last_dir_name@, fuel as nat));
        }
    }
}

/// The well-known numeric resource-type identifier of bitmap resources.
pub const RT_BITMAP_ID: u32 = 2;

/// Sub-directory offset named by the first root entry that carries the
/// string name `chars` and leads to a sub-directory; `None` if there is no
/// such entry from position `i` on.
pub open spec fn spec_find_named_root_dir(
    s: Seq<u8>,
    rs: int,
    rz: int,
    chars: Seq<char>,
    i: int,
) -> Option<u32>
    decreases spec_dir_entry_count(s, rs, 0) - i,
{
    if !spec_dir_ok(s, rs, rz, 0) || i < 0 || i >= spec_dir_entry_count(s, rs, 0) {
        None
    } else {
        let nf = spec_entry_name_field(s, rs, 0, i);
        let of = spec_entry_off_field(s, rs, 0, i);
        if nf >= 0x80000000 && spec_res_name_ok(s, rs, rz, nf - 0x80000000) && spec_res_name(
            s,
            rs,
            nf - 0x80000000,
        ) == chars && of >= 0x80000000 {
            Some((of - 0x80000000) as u32)
        } else {
            spec_find_named_root_dir(s, rs, rz, chars, i + 1)
        }
    }
}

/// Sub-directory offset named by the first root entry that carries the
/// numeric identifier `id` and leads to a sub-directory.
pub open spec fn spec_find_id_root_dir(s: Seq<u8>, rs: int, rz: int, id: u32, i: int) -> Option<
    u32,
>
    decreases spec_dir_entry_count(s, rs, 0) - i,
{
    if !spec_dir_ok(s, rs, rz, 0) || i < 0 || i >= spec_dir_entry_count(s, rs, 0) {
        None
    } else {
        let nf = spec_entry_name_field(s, rs, 0, i);
        let of = spec_entry_off_field(s, rs, 0, i);
        if nf < 0x80000000 && nf == id && of >= 0x80000000 {
            Some((of - 0x80000000) as u32)
        } else {
            spec_find_id_root_dir(s, rs, rz, id, i + 1)
        }
    }
}

/// The ASCII decimal digits of `n`, most significant first.
pub fn u32_decimal_bytes(n: u32) -> (r: Vec<u8>)
    ensures
        ascii_view(r@) == spec_decimal(n as int),
        forall|i: int| 0 <= i < r@.len() ==> r@[i] < 0x80,
    decreases n,
{
    if n < 10 {
        let mut v: Vec<u8> = Vec::new();
        v.push(0x30 + n as u8);
        proof {
            assert(ascii_view(v@) =~= spec_decimal(n as int));
        }
        v
    } else {
        let mut v = u32_decimal_bytes(n / 10);
        v.push(0x30 + (n % 10) as u8);
        proof {
            assert(ascii_view(v@) =~= spec_decimal(n as int));
        }
        v
    }
}

/// Whether the stored eight-byte section name, truncated at its first NUL,
/// spells exactly the characters of `name`.
pub fn section_name_matches(sec_name: &Vec<u8>, name: &String) -> (r: bool)
    ensures
        r == spec_name_matches(sec_name@, name@),
{
    let k = name.as_str().unicode_len();
    let n = sec_name.len();
    if k > n {
        return false;
    }
    let mut i: usize = 0;
    while i < k
        invariant
            0 <= i <= k,
            k <= n,
            n == sec_name@.len(),
            k == name@.len(),
            forall|j: int|
                0 <= j < i ==> #[trigger] sec_name@[j] != 0 && sec_name@[j] < 0x80 && name@[j]
                    == sec_name@[j] as char,
        decreases k - i,
    {
        let b = sec_name[i];
        if b == 0 || b >= 0x80 {
            return false;
        }
        let c = name.as_str().get_char(i);
        if c != b as char {
            return false;
        }
        i = i + 1;
    }
    if k < n {
        if sec_name[k] != 0 {
            return false;
        }
    }
    true
}

} // verus!
