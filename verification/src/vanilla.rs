//! The extraction driver: owns the raw executable bytes and plans the three
//! extraction passes (music resources, bitmap resources, stage table).
//!
//! The driver computes, for each pass, which files have to be written and
//! with which bytes; writing them to disk is the caller's business. The
//! stage-table pass locates its data by sliding a fixed instruction-byte
//! signature across the code section and resolving the virtual address found
//! after it through the section table.

use vstd::bytes::{lemma_auto_spec_u32_to_from_le_bytes, spec_u32_to_le_bytes, u32_to_le_bytes};
use vstd::prelude::*;

use crate::bytes::{copy_range, le32_at, read_u32_at};
use crate::error::{GameError, GameResult};
use crate::exe_parser::{ByteRange, DataFile, DataFileModel, ExeParser, ExeResourceDirectory,
    spec_find_by_name, spec_find_by_rva, spec_find_id_root_dir, spec_find_named_root_dir,
    spec_flatten, spec_image_base, spec_parse_ok, spec_resource_region, spec_resource_rva,
    spec_sections, RESOURCE_DIR_MAX_DEPTH, RT_BITMAP_ID};

verus! {

/// Number of records of the stage table in the targeted build.
pub const VANILLA_STAGE_COUNT: u32 = 95;

/// Size in bytes of one stage-table record in the targeted build.
pub const VANILLA_STAGE_ENTRY_SIZE: u32 = 0xC8;

/// Total size in bytes of the stage table.
pub const VANILLA_STAGE_TABLE_SIZE: u32 = VANILLA_STAGE_COUNT * VANILLA_STAGE_ENTRY_SIZE;

/// Length in bytes of the instruction signature that precedes the stage
/// table's address in the code section.
pub const STAGE_SIGNATURE_LEN: usize = 13;

/// The fixed instruction bytes that precede the stage table's absolute
/// virtual address in the code section of the targeted build: an
/// `add esp, 8`, a `mov eax, [ebp+8]`, an `imul eax, 0C8h`, and the opcode
/// of an `add eax` whose four-byte operand is the table's address.
pub open spec fn spec_stage_signature() -> Seq<u8> {
    seq![0x83u8, 0xC4, 0x08, 0x8B, 0x45, 0x08, 0x69, 0xC0, 0xC8, 0x00, 0x00, 0x00, 0x05]
}

/// The instruction signature as a vector.
pub fn stage_signature() -> (r: Vec<u8>)
    ensures
        r@ == spec_stage_signature(),
{
    let mut v: Vec<u8> = Vec::new();
    v.push(0x83);
    v.push(0xC4);
    v.push(0x08);
    v.push(0x8B);
    v.push(0x45);
    v.push(0x08);
    v.push(0x69);
    v.push(0xC0);
    v.push(0xC8);
    v.push(0x00);
    v.push(0x00);
    v.push(0x00);
    v.push(0x05);
    proof {
        assert(v@ =~= spec_stage_signature());
    }
    v
}

/// Whether the signature stands byte-for-byte at offset `o` of `s`.
pub open spec fn spec_sig_match_at(s: Seq<u8>, o: int) -> bool {
    s.subrange(o, o + STAGE_SIGNATURE_LEN as int) == spec_stage_signature()
}

/// The first offset in `[lo, hi - 13]` where the signature stands, scanning
/// from `lo`.
pub open spec fn spec_find_signature(s: Seq<u8>, lo: int, hi: int) -> Option<int>
    decreases hi - lo,
{
    if lo < 0 || lo + STAGE_SIGNATURE_LEN as int > hi {
        None
    } else if spec_sig_match_at(s, lo) {
        Some(lo)
    } else {
        spec_find_signature(s, lo + 1, hi)
    }
}

/// Whether the signature stands at offset `o` of `image`.
pub fn sig_match_at(image: &Vec<u8>, o: usize) -> (r: bool)
    requires
        o + STAGE_SIGNATURE_LEN <= image@.len(),
    ensures
        r == spec_sig_match_at(image@, o as int),
{
    let _n = image.len();
    let sig = stage_signature();
    let mut k: usize = 0;
    while k < STAGE_SIGNATURE_LEN
        invariant
            0 <= k <= STAGE_SIGNATURE_LEN,
            o + STAGE_SIGNATURE_LEN <= image@.len(),
            image@.len() <= usize::MAX,
            sig@ == spec_stage_signature(),
            forall|t: int| 0 <= t < k ==> image@[o + t] == spec_stage_signature()[t],
        decreases STAGE_SIGNATURE_LEN - k,
    {
        if image[o + k] != sig[k] {
            proof {
                assert(image@.subrange(o as int, o + STAGE_SIGNATURE_LEN as int)[k as int]
                    != spec_stage_signature()[k as int]);
            }
            return false;
        }
        k = k + 1;
    }
    proof {
        assert(image@.subrange(o as int, o + STAGE_SIGNATURE_LEN as int)
            =~= spec_stage_signature());
    }
    true
}

/// Finds the first offset in `[lo, hi)` where the whole signature stands.
pub fn find_signature(image: &Vec<u8>, lo: usize, hi: usize) -> (r: Option<usize>)
    requires
        lo <= hi <= image@.len(),
    ensures
        match r {
            Some(o) => lo <= o && o + STAGE_SIGNATURE_LEN <= hi && spec_find_signature(
                image@,
                lo as int,
                hi as int,
            ) == Some(o as int),
            None => spec_find_signature(image@, lo as int, hi as int) is None,
        },
{
    if hi < STAGE_SIGNATURE_LEN || lo > hi - STAGE_SIGNATURE_LEN {
        return None;
    }
    let mut o: usize = lo;
    while o <= hi - STAGE_SIGNATURE_LEN
        invariant
            lo <= o <= hi - STAGE_SIGNATURE_LEN + 1,
            STAGE_SIGNATURE_LEN <= hi <= image@.len(),
            spec_find_signature(image@, lo as int, hi as int) == spec_find_signature(
                image@,
                o as int,
                hi as int,
            ),
        decreases hi - o,
    {
        if sig_match_at(image, o) {
            return Some(o);
        }
        o = o + 1;
    }
    None
}

/// A file the extraction plans to write: a path relative to the output root
/// and the bytes to put there.
#[derive(Debug)]
pub struct PlannedFile {
    pub path: String,
    pub bytes: Vec<u8>,
}

/// Ghost image of a [`PlannedFile`].
pub struct PlannedFileModel {
    pub path: Seq<char>,
    pub bytes: Seq<u8>,
}

impl View for PlannedFile {
    type V = PlannedFileModel;

    open spec fn view(&self) -> PlannedFileModel {
        PlannedFileModel { path: self.path@, bytes: self.bytes@ }
    }
}

/// What one run of the three extraction passes yields: the files to write,
/// and one error per pass that failed. The passes run independently: a
/// failed pass contributes an error and no files, and does not keep the
/// others from running.
pub struct ExtractionOutcome {
    pub files: Vec<PlannedFile>,
    pub pass_errors: Vec<GameError>,
}

/// A fresh copy of a byte vector.
fn clone_bytes(v: &Vec<u8>) -> (r: Vec<u8>)
    ensures
        r@ == v@,
{
    let n = v.len();
    let r = copy_range(v, 0, n);
    proof {
        assert(r@ =~= v@);
    }
    r
}

/// The bytes of a minimal bitmap container file holding `payload`: the
/// two magic bytes, the little-endian total file size, four reserved zero
/// bytes, the fixed little-endian pixel-data offset, then the payload
/// unchanged.
pub open spec fn spec_bitmap_file(payload: Seq<u8>) -> Seq<u8>
    recommends
        payload.len() + 14 <= u32::MAX,
{
    seq![0x42u8, 0x4Du8] + spec_u32_to_le_bytes((payload.len() + 14) as u32) + seq![
        0u8,
        0u8,
        0u8,
        0u8,
    ] + spec_u32_to_le_bytes(0x76u32) + payload
}

/// Builds the minimal bitmap container file around `payload`.
pub fn make_bitmap_file(payload: &Vec<u8>) -> (r: Vec<u8>)
    requires
        payload@.len() + 14 <= u32::MAX,
    ensures
        r@ == spec_bitmap_file(payload@),
{
    let mut out: Vec<u8> = Vec::new();
    out.push(0x42);
    out.push(0x4D);
    let mut size_bytes = u32_to_le_bytes(payload.len() as u32 + 14);
    out.append(&mut size_bytes);
    out.push(0);
    out.push(0);
    out.push(0);
    out.push(0);
    let mut offset_bytes = u32_to_le_bytes(0x76);
    out.append(&mut offset_bytes);
    let mut payload_copy = clone_bytes(payload);
    out.append(&mut payload_copy);
    proof {
        assert(out@ =~= spec_bitmap_file(payload@));
    }
    out
}

/// Stripping the fourteen-byte header off a bitmap pass output gives back,
/// byte for byte, exactly the payload it was built from.
pub proof fn lemma_bitmap_round_trip(payload: Seq<u8>)
    ensures
        spec_bitmap_file(payload).len() == payload.len() + 14,
        spec_bitmap_file(payload).subrange(14, spec_bitmap_file(payload).len() as int) == payload,
{
    lemma_auto_spec_u32_to_from_le_bytes();
    assert(spec_bitmap_file(payload).subrange(14, spec_bitmap_file(payload).len() as int)
        =~= payload);
}

/// The file-offset interval of the stage table, as the locator resolves it:
/// the first signature match inside the code section's file range, the
/// four-byte little-endian absolute virtual address right after it,
/// translated back through the section that holds its RVA. `None` wherever
/// a step fails: no code section, no match, the address before the image
/// base or inside no section, or an interval end past the 32-bit offsets.
pub open spec fn spec_stage_table_range(s: Seq<u8>) -> Option<(int, int)> {
    match spec_find_by_name(spec_sections(s), ".text"@) {
        None => None,
        Some(ti) => {
            let text = spec_sections(s)[ti];
            let lo = text.pointer_to_raw_data as int;
            let hi = lo + text.size_of_raw_data as int;
            match spec_find_signature(s, lo, hi) {
                None => None,
                Some(o) => {
                    if o + STAGE_SIGNATURE_LEN as int + 4 <= s.len() {
                        let va = le32_at(s, o + STAGE_SIGNATURE_LEN as int);
                        if va >= spec_image_base(s) {
                            let rva = (va - spec_image_base(s)) as u32;
                            match spec_find_by_rva(spec_sections(s), rva) {
                                None => None,
                                Some(si) => {
                                    let sec = spec_sections(s)[si];
                                    let start = sec.pointer_to_raw_data + (rva
                                        - sec.virtual_address);
                                    if start + VANILLA_STAGE_TABLE_SIZE <= u32::MAX {
                                        Some((start, start + VANILLA_STAGE_TABLE_SIZE))
                                    } else {
                                        None
                                    }
                                },
                            }
                        } else {
                            None
                        }
                    } else {
                        None
                    }
                },
            }
        },
    }
}

/// The data files of the music resource directory, flattened; `None` if the
/// resource root has no `ORG` sub-directory.
pub open spec fn spec_org_files(s: Seq<u8>) -> Option<Seq<DataFileModel>> {
    match spec_resource_region(s) {
        None => None,
        Some((rs, rz)) => match spec_find_named_root_dir(s, rs, rz, "ORG"@, 0) {
            Some(sub) => Some(
                spec_flatten(
                    s,
                    rs,
                    rz,
                    spec_resource_rva(s),
                    sub as int,
                    0,
                    "unknown"@,
                    RESOURCE_DIR_MAX_DEPTH as nat,
                ),
            ),
            None => None,
        },
    }
}

/// The data files of the bitmap resource directory, flattened; `None` if the
/// resource root has no bitmap-type sub-directory.
pub open spec fn spec_bitmap_files(s: Seq<u8>) -> Option<Seq<DataFileModel>> {
    match spec_resource_region(s) {
        None => None,
        Some((rs, rz)) => match spec_find_id_root_dir(s, rs, rz, RT_BITMAP_ID, 0) {
            Some(sub) => Some(
                spec_flatten(
                    s,
                    rs,
                    rz,
                    spec_resource_rva(s),
                    sub as int,
                    0,
                    "unknown"@,
                    RESOURCE_DIR_MAX_DEPTH as nat,
                ),
            ),
            None => None,
        },
    }
}

/// The files the audio pass plans, under the output directory `dir`; empty
/// when the pass fails.
pub open spec fn spec_planned_org(s: Seq<u8>, dir: Seq<char>) -> Seq<PlannedFileModel> {
    match spec_org_files(s) {
        Some(ms) => ms.map_values(
            |m: DataFileModel|
                PlannedFileModel { path: dir + "/Org/"@ + m.name + ".org"@, bytes: m.bytes },
        ),
        None => Seq::empty(),
    }
}

/// Whether every bitmap payload leaves its container's total size
/// representable in 32 bits.
pub open spec fn spec_bitmaps_fit(ms: Seq<DataFileModel>) -> bool {
    forall|i: int| 0 <= i < ms.len() ==> (#[trigger] ms[i]).bytes.len() + 14 <= u32::MAX
}

/// The files the bitmap pass plans, under the output directory `dir`; empty
/// when the pass fails.
pub open spec fn spec_planned_bitmaps(s: Seq<u8>, dir: Seq<char>) -> Seq<PlannedFileModel> {
    match spec_bitmap_files(s) {
        Some(ms) => if spec_bitmaps_fit(ms) {
            ms.map_values(
                |m: DataFileModel|
                    PlannedFileModel {
                        path: dir + "/"@ + m.name + ".pbm"@,
                        bytes: spec_bitmap_file(m.bytes),
                    },
            )
        } else {
            Seq::empty()
        },
        None => Seq::empty(),
    }
}

/// The file the stage-table pass plans, under the output directory `dir`;
/// empty when the pass fails.
pub open spec fn spec_planned_stage(s: Seq<u8>, dir: Seq<char>) -> Seq<PlannedFileModel> {
    match spec_stage_table_range(s) {
        Some((a, b)) => if b <= s.len() {
            seq![PlannedFileModel { path: dir + "/stage.sect"@, bytes: s.subrange(a, b) }]
        } else {
            Seq::empty()
        },
        None => Seq::empty(),
    }
}

/// Whether the audio pass fails on image `s`.
pub open spec fn spec_org_pass_fails(s: Seq<u8>) -> bool {
    spec_org_files(s) is None
}

/// Whether the bitmap pass fails on image `s`.
pub open spec fn spec_bitmap_pass_fails(s: Seq<u8>) -> bool {
    match spec_bitmap_files(s) {
        Some(ms) => !spec_bitmaps_fit(ms),
        None => true,
    }
}

/// Whether the stage-table pass fails on image `s`.
pub open spec fn spec_stage_pass_fails(s: Seq<u8>) -> bool {
    match spec_stage_table_range(s) {
        Some((_a, b)) => b > s.len(),
        None => true,
    }
}

/// The extraction driver: the raw executable image and the name of the
/// output directory the planned paths are rooted in.
pub struct VanillaExtractor {
    pub exe_buffer: Vec<u8>,
    pub data_base_dir: String,
}

impl VanillaExtractor {
    /// A driver over an executable image already read into memory.
    pub fn new(exe_buffer: Vec<u8>, data_base_dir: String) -> (r: Self)
        ensures
            r.exe_buffer == exe_buffer,
            r.data_base_dir == data_base_dir,
    {
        Self { exe_buffer, data_base_dir }
    }

    /// Locates the stage table's file byte range by scanning the code
    /// section for the instruction signature and resolving the virtual
    /// address stored after it. `None` on any mismatch: the design is
    /// version-fragile on purpose, and a miss is an ordinary failure.
    pub fn find_stage_table_offset(&self, parser: &ExeParser) -> (r: Option<ByteRange>)
        requires
            parser.wf(self.exe_buffer@),
        ensures
            match spec_stage_table_range(self.exe_buffer@) {
                Some((a, b)) => r matches Some(br) && br.start == a && br.end == b,
                None => r is None,
            },
    {
        let ghost s = self.exe_buffer@;
        let file = &self.exe_buffer;
        let _flen = file.len();
        let ti = match parser.find_section_by_name(&String::from_str(".text")) {
            Some(ti) => ti,
            None => {
                return None;
            },
        };
        let text = &parser.section_headers[ti];
        proof {
            assert(parser.section_headers@.map_values(|h: crate::exe_parser::SectionHeader| h@)[
            ti as int] == parser.section_headers@[ti as int]@);
            assert(spec_sections(s)[ti as int] == text@);
        }
        let lo = text.pointer_to_raw_data as usize;
        let hi = lo + text.size_of_raw_data as usize;
        let o = match find_signature(file, lo, hi) {
            Some(o) => o,
            None => {
                return None;
            },
        };
        if !(o <= file.len() && file.len() - o >= STAGE_SIGNATURE_LEN + 4) {
            return None;
        }
        let va = read_u32_at(file, o + STAGE_SIGNATURE_LEN);
        if va < parser.image_base {
            return None;
        }
        let rva = va - parser.image_base;
        let si = match parser.find_section_by_rva(rva) {
            Some(si) => si,
            None => {
                return None;
            },
        };
        let sec = &parser.section_headers[si];
        proof {
            assert(parser.section_headers@.map_values(|h: crate::exe_parser::SectionHeader| h@)[
            si as int] == parser.section_headers@[si as int]@);
            assert(spec_sections(s)[si as int] == sec@);
            crate::exe_parser::lemma_find_by_rva_props(spec_sections(s), rva);
        }
        let in_off = rva - sec.virtual_address;
        let start64 = sec.pointer_to_raw_data as u64 + in_off as u64;
        let end64 = start64 + VANILLA_STAGE_TABLE_SIZE as u64;
        if end64 > u32::MAX as u64 {
            return None;
        }
        Some(ByteRange { start: start64 as u32, end: end64 as u32 })
    }

    /// Plans the stage-table pass: locates the table and copies its bytes,
    /// to go to `stage.sect` under the output directory. Fails with a
    /// `ParseError` when the locator misses, and with a distinct
    /// `ParseError` when the resolved range runs past the end of the image
    /// buffer.
    pub fn extract_stage_table(&self, parser: &ExeParser) -> (r: GameResult<PlannedFile>)
        requires
            parser.wf(self.exe_buffer@),
        ensures
            match spec_stage_table_range(self.exe_buffer@) {
                Some((a, b)) => {
                    if b <= self.exe_buffer@.len() {
                        r matches Ok(pf) && pf.path@ == self.data_base_dir@ + "/stage.sect"@
                            && pf.bytes@ == self.exe_buffer@.subrange(a, b)
                    } else {
                        r matches Err(GameError::ParseError(m)) && m@
                            == "Stage table range is out of bounds."@
                    }
                },
                None => r matches Err(GameError::ParseError(m)) && m@
                    == "Failed to retrieve stage table from executable."@,
            },
    {
        let range = match self.find_stage_table_offset(parser) {
            Some(range) => range,
            None => {
                return Err(
                    GameError::ParseError(
                        String::from_str("Failed to retrieve stage table from executable."),
                    ),
                );
            },
        };
        let len = self.exe_buffer.len();
        if !(range.end as u64 <= len as u64) {
            return Err(
                GameError::ParseError(String::from_str("Stage table range is out of bounds.")),
            );
        }
        let bytes = copy_range(&self.exe_buffer, range.start as usize, range.end as usize);
        let path = self.data_base_dir.clone().concat("/stage.sect");
        Ok(PlannedFile { path, bytes })
    }

    /// Plans the audio pass: flattens the `ORG` resource directory and sends
    /// each data file, bytes unchanged, to `Org/<name>.org` under the output
    /// directory.
    pub fn extract_organya(&self, parser: &ExeParser) -> (r: GameResult<Vec<PlannedFile>>)
        requires
            parser.wf(self.exe_buffer@),
        ensures
            spec_org_files(self.exe_buffer@) matches Some(models) ==> (r matches Ok(pfs)
                && pfs@.len() == models.len() && forall|i: int|
                0 <= i < models.len() ==> (#[trigger] pfs@[i])@.bytes == models[i].bytes && pfs@[i]@.path
                    == self.data_base_dir@ + "/Org/"@ + models[i].name + ".org"@),
            spec_org_files(self.exe_buffer@) is None ==> (r matches Err(GameError::ParseError(m))
                && m@ == "Failed to retrieve Organya resource directory."@),
    {
        let dir = match parser.get_resource_dir(&self.exe_buffer, String::from_str("ORG")) {
            Ok(dir) => dir,
            Err(_) => {
                return Err(
                    GameError::ParseError(
                        String::from_str("Failed to retrieve Organya resource directory."),
                    ),
                );
            },
        };
        let ghost models = spec_org_files(self.exe_buffer@)->Some_0;
        proof {
            assert(spec_org_files(self.exe_buffer@) is Some);
            assert(dir.data_files@.map_values(|df: DataFile| df@) == models);
        }
        let mut out: Vec<PlannedFile> = Vec::new();
        let n = dir.data_files.len();
        let mut i: usize = 0;
        while i < n
            invariant
                0 <= i <= n,
                n == dir.data_files@.len(),
                spec_org_files(self.exe_buffer@) == Some(models),
                dir.data_files@.map_values(|df: DataFile| df@) == models,
                out@.len() == i,
                forall|j: int|
                    0 <= j < i ==> (#[trigger] out@[j])@.bytes == models[j].bytes && out@[j]@.path
                        == self.data_base_dir@ + "/Org/"@ + models[j].name + ".org"@,
            decreases n - i,
        {
            proof {
                assert(dir.data_files@.map_values(|df: DataFile| df@)[i as int]
                    == dir.data_files@[i as int]@);
            }
            let df = &dir.data_files[i];
            let path = self.data_base_dir.clone().concat("/Org/").concat(df.name.as_str()).concat(
                ".org",
            );
            let bytes = clone_bytes(&df.bytes);
            out.push(PlannedFile { path, bytes });
            i = i + 1;
        }
        Ok(out)
    }

    /// Plans the bitmap pass: flattens the bitmap resource directory and
    /// sends each data file, wrapped in the fourteen-byte container header,
    /// to `<name>.pbm` under the output directory. Fails with a distinct
    /// `ParseError` if a payload is too large for the container's 32-bit
    /// size field.
    pub fn extract_bitmaps(&self, parser: &ExeParser) -> (r: GameResult<Vec<PlannedFile>>)
        requires
            parser.wf(self.exe_buffer@),
        ensures
            spec_bitmap_files(self.exe_buffer@) matches Some(models) ==> {
                &&& (spec_bitmaps_fit(models) ==> (r matches Ok(pfs) && pfs@.len() == models.len()
                    && forall|i: int|
                    0 <= i < models.len() ==> (#[trigger] pfs@[i])@.bytes == spec_bitmap_file(
                        models[i].bytes,
                    ) && pfs@[i]@.path == self.data_base_dir@ + "/"@ + models[i].name + ".pbm"@))
                &&& (!spec_bitmaps_fit(models) ==> (r matches Err(GameError::ParseError(m)) && m@
                    == "Bitmap resource is too large."@))
            },
            spec_bitmap_files(self.exe_buffer@) is None ==> (r matches Err(GameError::ParseError(m))
                && m@ == "Failed to retrieve bitmap directory."@),
    {
        let dir = match parser.get_bitmap_dir(&self.exe_buffer) {
            Ok(dir) => dir,
            Err(_) => {
                return Err(
                    GameError::ParseError(
                        String::from_str("Failed to retrieve bitmap directory."),
                    ),
                );
            },
        };
        let ghost models = spec_bitmap_files(self.exe_buffer@)->Some_0;
        proof {
            assert(spec_bitmap_files(self.exe_buffer@) is Some);
            assert(dir.data_files@.map_values(|df: DataFile| df@) == models);
        }
        let mut out: Vec<PlannedFile> = Vec::new();
        let n = dir.data_files.len();
        let mut i: usize = 0;
        while i < n
            invariant
                0 <= i <= n,
                n == dir.data_files@.len(),
                spec_bitmap_files(self.exe_buffer@) == Some(models),
                dir.data_files@.map_values(|df: DataFile| df@) == models,
                out@.len() == i,
                forall|j: int|
                    0 <= j < i ==> (#[trigger] models[j]).bytes.len() + 14 <= u32::MAX,
                forall|j: int|
                    0 <= j < i ==> (#[trigger] out@[j])@.bytes == spec_bitmap_file(models[j].bytes)
                        && out@[j]@.path == self.data_base_dir@ + "/"@ + models[j].name + ".pbm"@,
            decreases n - i,
        {
            proof {
                assert(dir.data_files@.map_values(|df: DataFile| df@)[i as int]
                    == dir.data_files@[i as int]@);
            }
            let df = &dir.data_files[i];
            if df.bytes.len() as u64 > (u32::MAX - 14) as u64 {
                proof {
                    assert(models[i as int].bytes.len() + 14 > u32::MAX);
                    assert(!spec_bitmaps_fit(models));
                }
                return Err(
                    GameError::ParseError(String::from_str("Bitmap resource is too large.")),
                );
            }
            let path = self.data_base_dir.clone().concat("/").concat(df.name.as_str()).concat(
                ".pbm",
            );
            let bytes = make_bitmap_file(&df.bytes);
            out.push(PlannedFile { path, bytes });
            i = i + 1;
        }
        Ok(out)
    }

    /// Runs the three extraction passes over the image and collects the
    /// planned files and the per-pass failures. The passes run
    /// independently: one failed pass contributes an error and keeps no
    /// other pass from running. Fails outright only when the image itself
    /// does not parse.
    pub fn extract_data(&self) -> (r: GameResult<ExtractionOutcome>)
        ensures
            r is Ok <==> spec_parse_ok(self.exe_buffer@),
            !spec_parse_ok(self.exe_buffer@) ==> (r matches Err(GameError::ParseError(m)) && m@
                == "Failed to create vanilla parser."@),
            r matches Ok(out) ==> {
                &&& out.files@.map_values(|pf: PlannedFile| pf@) == spec_planned_org(
                    self.exe_buffer@,
                    self.data_base_dir@,
                ) + spec_planned_bitmaps(self.exe_buffer@, self.data_base_dir@)
                    + spec_planned_stage(self.exe_buffer@, self.data_base_dir@)
                &&& out.pass_errors@.len() == (if spec_org_pass_fails(self.exe_buffer@) {
                    1int
                } else {
                    0int
                }) + (if spec_bitmap_pass_fails(self.exe_buffer@) {
                    1int
                } else {
                    0int
                }) + (if spec_stage_pass_fails(self.exe_buffer@) {
                    1int
                } else {
                    0int
                })
            },
    {
        let ghost s = self.exe_buffer@;
        let ghost dirname = self.data_base_dir@;
        let ghost vpf = |pf: PlannedFile| pf@;
        let parser = match ExeParser::from(&self.exe_buffer) {
            Ok(parser) => parser,
            Err(_) => {
                return Err(
                    GameError::ParseError(String::from_str("Failed to create vanilla parser.")),
                );
            },
        };
        let mut files: Vec<PlannedFile> = Vec::new();
        let mut pass_errors: Vec<GameError> = Vec::new();
        match self.extract_organya(&parser) {
            Ok(mut pfs) => {
                files.append(&mut pfs);
            },
            Err(e) => {
                pass_errors.push(e);
            },
        }
        proof {
            assert(files@.map_values(vpf) =~= spec_planned_org(s, dirname));
        }
        match self.extract_bitmaps(&parser) {
            Ok(mut pfs) => {
                files.append(&mut pfs);
            },
            Err(e) => {
                pass_errors.push(e);
            },
        }
        proof {
            assert(files@.map_values(vpf) =~= spec_planned_org(s, dirname) + spec_planned_bitmaps(
                s,
                dirname,
            ));
        }
        match self.extract_stage_table(&parser) {
            Ok(pf) => {
                files.push(pf);
            },
            Err(e) => {
                pass_errors.push(e);
            },
        }
        proof {
            assert(files@.map_values(vpf) =~= spec_planned_org(s, dirname) + spec_planned_bitmaps(
                s,
                dirname,
            ) + spec_planned_stage(s, dirname));
        }
        Ok(ExtractionOutcome { files, pass_errors })
    }
}

/// Determinism: the planned outputs are a function of the image bytes and
/// the output directory name alone, so equal inputs give equal plans for
/// every pass.
pub proof fn lemma_extraction_deterministic(
    s1: Seq<u8>,
    s2: Seq<u8>,
    dir1: Seq<char>,
    dir2: Seq<char>,
)
    requires
        s1 == s2,
        dir1 == dir2,
    ensures
        spec_planned_org(s1, dir1) == spec_planned_org(s2, dir2),
        spec_planned_bitmaps(s1, dir1) == spec_planned_bitmaps(s2, dir2),
        spec_planned_stage(s1, dir1) == spec_planned_stage(s2, dir2),
{
}

/// A stage-table miss (the signature absent from the code section, or its
/// stored address unresolvable) empties only the stage part of the plan;
/// the audio and bitmap passes still contribute exactly their own files.
pub proof fn lemma_stage_miss_keeps_other_passes(s: Seq<u8>, dir: Seq<char>)
    requires
        spec_stage_table_range(s) is None,
    ensures
        spec_planned_stage(s, dir) == Seq::<PlannedFileModel>::empty(),
        spec_planned_org(s, dir) + spec_planned_bitmaps(s, dir) + spec_planned_stage(s, dir)
            == spec_planned_org(s, dir) + spec_planned_bitmaps(s, dir),
{
    assert(spec_planned_org(s, dir) + spec_planned_bitmaps(s, dir) + spec_planned_stage(s, dir)
        =~= spec_planned_org(s, dir) + spec_planned_bitmaps(s, dir));
}

} // verus!
