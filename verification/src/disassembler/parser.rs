//! The layout of a firmware image: vector table, mapping symbols, functions, the regions of
//! each code section, the data halfwords and the code that is loaded into flash.
use vstd::prelude::*;
use crate::disassembler::{
    RegionKind, ImageSection, ImageSymbol, SectionView, SymbolView, ImageError, sections_view,
    symbols_view, read_object, object_contents,
};
use crate::disassembler::sorted_map::{represents, position, map_insert, map_get};

verus! {

/// Where flash, and with it the vector table, begins.
pub const FLASH_BASE: u64 = 0x0800_0000;

/// The little-endian word at `off` in `d`.
pub open spec fn le32(d: Seq<u8>, off: int) -> u32 {
    (d[off] as int + d[off + 1] as int * 0x100 + d[off + 2] as int * 0x1_0000 + d[off + 3] as int * 0x100_0000) as u32
}

/// Section `s` is loaded over address `at` and its readable contents hold the whole word
/// there.
pub open spec fn covers_word(s: SectionView, at: u64) -> bool {
    &&& s.data is Some
    &&& s.address <= at
    &&& at < s.address + s.size
    &&& (at - s.address) + 4 <= s.data->0.len()
}

/// The word at `at` as the last section that covers it holds it; 0 when none does.
pub open spec fn vector_word(secs: Seq<SectionView>, at: u64) -> u32
    decreases secs.len(),
{
    if secs.len() == 0 {
        0
    } else if covers_word(secs.last(), at) {
        le32(secs.last().data->0, at - secs.last().address)
    } else {
        vector_word(secs.drop_last(), at)
    }
}

/// Reads the word at `at` out of the sections (the last one that covers it wins).
pub fn read_vector_word(sections: &Vec<ImageSection>, at: u64) -> (w: u32)
    ensures
        w == vector_word(sections_view(sections@), at),
{
    let mut w: u32 = 0;
    let mut i: usize = 0;
    while i < sections.len()
        invariant
            i <= sections.len(),
            w == vector_word(sections_view(sections@.take(i as int)), at),
        decreases sections.len() - i,
    {
        assert(sections_view(sections@.take(i + 1)).drop_last() =~= sections_view(sections@.take(i as int)));
        let s = &sections[i];
        if let Some(d) = &s.data {
            if s.address <= at && at - s.address < s.size && at - s.address <= d.len() as u64
                && 4 <= d.len() as u64 - (at - s.address) {
                let o = (at - s.address) as usize;
                w = d[o] as u32 + d[o + 1] as u32 * 0x100 + d[o + 2] as u32 * 0x1_0000 + d[o + 3] as u32 * 0x100_0000;
            }
        }
        i = i + 1;
    }
    assert(sections@.take(sections.len() as int) =~= sections@);
    w
}

/// `n` begins with the two characters `a`, `b`.
pub open spec fn starts_with2(n: Seq<char>, a: char, b: char) -> bool {
    n.len() >= 2 && n[0] == a && n[1] == b
}

/// The address a symbol stands for, with the Thumb bit cleared.
pub open spec fn symbol_addr(s: SymbolView) -> u64 {
    s.address & !1u64
}

/// The region a mapping symbol opens: `$t...` Thumb code, `$d...` data.
pub open spec fn marker_kind(s: SymbolView) -> Option<RegionKind> {
    match s.name {
        Some(n) => if starts_with2(n, '$', 't') {
            Some(RegionKind::Thumb)
        } else if starts_with2(n, '$', 'd') {
            Some(RegionKind::Data)
        } else {
            None
        },
        None => None,
    }
}

/// A named code symbol that is no mapping symbol.
pub open spec fn is_function(s: SymbolView) -> bool {
    s.name is Some && marker_kind(s) is None && s.is_text
}

/// The mapping symbols by address; a later symbol replaces an earlier one at the same address.
pub open spec fn marker_map(syms: Seq<SymbolView>) -> Map<u64, RegionKind>
    decreases syms.len(),
{
    if syms.len() == 0 {
        Map::empty()
    } else {
        let m = marker_map(syms.drop_last());
        match marker_kind(syms.last()) {
            Some(k) => m.insert(symbol_addr(syms.last()), k),
            None => m,
        }
    }
}

/// The functions by address, as the index of their symbol; a later symbol replaces an
/// earlier one at the same address.
pub open spec fn function_map(syms: Seq<SymbolView>) -> Map<u64, usize>
    decreases syms.len(),
{
    if syms.len() == 0 {
        Map::empty()
    } else {
        let m = function_map(syms.drop_last());
        if is_function(syms.last()) {
            m.insert(symbol_addr(syms.last()), (syms.len() - 1) as usize)
        } else {
            m
        }
    }
}

pub open spec fn reset_pattern() -> Seq<char> {
    seq!['r', 'e', 's', 'e', 't', '_', 'h', 'a', 'n', 'd', 'l', 'e', 'r']
}

pub open spec fn reset_pattern_upper() -> Seq<char> {
    seq!['R', 'E', 'S', 'E', 'T', '_', 'H', 'A', 'N', 'D', 'L', 'E', 'R']
}

/// `reset_handler`, in any mix of upper and lower case, stands in `n` at `k`.
pub open spec fn reset_at(n: Seq<char>, k: int) -> bool {
    &&& 0 <= k
    &&& k + 13 <= n.len()
    &&& forall|j: int| 0 <= j < 13 ==> #[trigger] n[k + j] == reset_pattern()[j] || n[k + j] == reset_pattern_upper()[j]
}

/// `n` contains `reset_handler`, case aside.
pub open spec fn names_reset_handler(n: Seq<char>) -> bool {
    exists|k: int| reset_at(n, k)
}

/// The address of the last function whose name contains `reset_handler`, case aside.
pub open spec fn reset_handler_of(syms: Seq<SymbolView>) -> Option<u64>
    decreases syms.len(),
{
    if syms.len() == 0 {
        None
    } else if is_function(syms.last()) && names_reset_handler(syms.last().name->0) {
        Some(symbol_addr(syms.last()))
    } else {
        reset_handler_of(syms.drop_last())
    }
}

fn pattern_chars(j: usize) -> (c: (char, char))
    requires
        j < 13,
    ensures
        c.0 == reset_pattern()[j as int],
        c.1 == reset_pattern_upper()[j as int],
{
    match j {
        0 => ('r', 'R'),
        1 => ('e', 'E'),
        2 => ('s', 'S'),
        3 => ('e', 'E'),
        4 => ('t', 'T'),
        5 => ('_', '_'),
        6 => ('h', 'H'),
        7 => ('a', 'A'),
        8 => ('n', 'N'),
        9 => ('d', 'D'),
        10 => ('l', 'L'),
        11 => ('e', 'E'),
        _ => ('r', 'R'),
    }
}

fn reset_at_exec(n: &Vec<char>, k: usize) -> (b: bool)
    requires
        k + 13 <= n.len(),
    ensures
        b == reset_at(n@, k as int),
{
    let mut j: usize = 0;
    while j < 13
        invariant
            j <= 13,
            k + 13 <= n.len(),
            forall|i: int| 0 <= i < j ==> #[trigger] n@[k + i] == reset_pattern()[i] || n@[k + i] == reset_pattern_upper()[i],
        decreases 13 - j,
    {
        let (lo, up) = pattern_chars(j);
        if n[k + j] != lo && n[k + j] != up {
            return false;
        }
        j = j + 1;
    }
    true
}

/// Whether `n` contains `reset_handler`, case aside.
pub fn has_reset_handler_name(n: &Vec<char>) -> (b: bool)
    ensures
        b == names_reset_handler(n@),
{
    if n.len() < 13 {
        return false;
    }
    let mut k: usize = 0;
    while k <= n.len() - 13
        invariant
            13 <= n.len(),
            k <= n.len() - 12,
            forall|i: int| 0 <= i < k ==> !#[trigger] reset_at(n@, i),
        decreases n.len() - k,
    {
        if reset_at_exec(n, k) {
            return true;
        }
        k = k + 1;
    }
    proof {
        assert forall|i: int| !#[trigger] reset_at(n@, i) by {
            if 0 <= i && i < k {
            }
        }
    }
    false
}

fn marker_kind_exec(s: &ImageSymbol) -> (k: Option<RegionKind>)
    ensures
        k == marker_kind(s@),
{
    match &s.name {
        Some(n) => {
            if n.len() >= 2 && n[0] == '$' && n[1] == 't' {
                Some(RegionKind::Thumb)
            } else if n.len() >= 2 && n[0] == '$' && n[1] == 'd' {
                Some(RegionKind::Data)
            } else {
                None
            }
        },
        None => None,
    }
}

/// The mapping symbols and functions of the image, both by address in increasing order,
/// and the address of its reset handler.
pub struct SymbolScan {
    pub markers: Vec<(u64, RegionKind)>,
    pub functions: Vec<(u64, usize)>,
    pub reset_handler: Option<u64>,
}

/// Sorts the symbols into mapping symbols and functions, and finds the reset handler.
pub fn scan_symbols(symbols: &Vec<ImageSymbol>) -> (r: SymbolScan)
    ensures
        represents(r.markers@, marker_map(symbols_view(symbols@))),
        represents(r.functions@, function_map(symbols_view(symbols@))),
        r.reset_handler == reset_handler_of(symbols_view(symbols@)),
{
    let mut markers: Vec<(u64, RegionKind)> = Vec::new();
    let mut functions: Vec<(u64, usize)> = Vec::new();
    let mut reset_handler: Option<u64> = None;
    let mut i: usize = 0;
    while i < symbols.len()
        invariant
            i <= symbols.len(),
            represents(markers@, marker_map(symbols_view(symbols@.take(i as int)))),
            represents(functions@, function_map(symbols_view(symbols@.take(i as int)))),
            reset_handler == reset_handler_of(symbols_view(symbols@.take(i as int))),
        decreases symbols.len() - i,
    {
        let ghost prev = symbols_view(symbols@.take(i as int));
        let ghost cur = symbols_view(symbols@.take(i + 1));
        assert(cur.drop_last() =~= prev);
        assert(cur.last() == symbols@[i as int]@);
        let s = &symbols[i];
        let addr = s.address & !1u64;
        match marker_kind_exec(s) {
            Some(k) => {
                map_insert(&mut markers, addr, k, Ghost(marker_map(prev)));
            },
            None => {
                if s.is_text {
                    if let Some(n) = &s.name {
                        map_insert(&mut functions, addr, i, Ghost(function_map(prev)));
                        if has_reset_handler_name(n) {
                            reset_handler = Some(addr);
                        }
                    }
                }
            },
        }
        i = i + 1;
    }
    assert(symbols@.take(symbols.len() as int) =~= symbols@);
    SymbolScan { markers, functions, reset_handler }
}

/// A region of a code section: `[start, end)`, what it holds, its bytes, and the function
/// (index of its symbol) that begins there, if any.
#[derive(Clone, Debug)]
pub struct ImageRegion {
    pub start: u64,
    pub end: u64,
    pub kind: RegionKind,
    pub bytes: Vec<u8>,
    pub function: Option<usize>,
}

pub struct RegionView {
    pub start: u64,
    pub end: u64,
    pub kind: RegionKind,
    pub bytes: Seq<u8>,
    pub function: Option<usize>,
}

impl View for ImageRegion {
    type V = RegionView;

    open spec fn view(&self) -> RegionView {
        RegionView { start: self.start, end: self.end, kind: self.kind, bytes: self.bytes@, function: self.function }
    }
}

pub open spec fn regions_view(s: Seq<ImageRegion>) -> Seq<RegionView> {
    s.map_values(|r: ImageRegion| r@)
}

/// A code section whose contents can be read and cover its size, and that ends within the
/// address space.
pub open spec fn sound_section(s: SectionView) -> bool {
    &&& s.data is Some
    &&& s.address + s.size <= u64::MAX
    &&& s.size <= s.data->0.len()
}

/// One region of section `s`: it lies in the section and holds the section's bytes there;
/// where a mapping symbol stands at its start it has that symbol's kind, and only the first
/// region may start without one (it is then data); it names the function that starts there.
pub open spec fn region_ok(s: SectionView, mk: Map<u64, RegionKind>, fm: Map<u64, usize>, r: RegionView, first: bool) -> bool {
    &&& s.address <= r.start <= r.end <= s.address + s.size
    &&& if mk.dom().contains(r.start) { r.kind == mk[r.start] } else { first && r.kind == RegionKind::Data }
    &&& r.bytes == s.data->0.subrange(r.start - s.address, r.end - s.address)
    &&& r.function == if fm.dom().contains(r.start) { Some(fm[r.start]) } else { None }
}

/// `rs` splits section `s` at its mapping symbols: the regions follow one another without a
/// gap from the start of the section to its end, each but the last is nonempty, and no
/// mapping symbol stands strictly inside a region.
pub open spec fn regions_ok(s: SectionView, mk: Map<u64, RegionKind>, fm: Map<u64, usize>, rs: Seq<RegionView>) -> bool {
    &&& rs.len() >= 1
    &&& rs[0].start == s.address
    &&& rs.last().end == s.address + s.size
    &&& forall|i: int| 0 <= i < rs.len() - 1 ==> #[trigger] rs[i].start < rs[i].end && rs[i].end == rs[i + 1].start
    &&& forall|i: int| 0 <= i < rs.len() ==> region_ok(s, mk, fm, #[trigger] rs[i], i == 0)
    &&& forall|i: int, a: u64|
        #![trigger rs[i], mk.dom().contains(a)]
        0 <= i < rs.len() && mk.dom().contains(a) ==> !(rs[i].start < a && a < rs[i].end)
}

/// Regions that follow one another end no later than any later one starts.
proof fn lemma_regions_ordered(s: SectionView, mk: Map<u64, RegionKind>, fm: Map<u64, usize>, rs: Seq<RegionView>, i: int, j: int)
    requires
        regions_ok(s, mk, fm, rs),
        0 <= i < j < rs.len(),
    ensures
        rs[i].end <= rs[j].start,
    decreases j - i,
{
    if j > i + 1 {
        lemma_regions_ordered(s, mk, fm, rs, i, j - 1);
        assert(rs[j - 1].start < rs[j - 1].end && rs[j - 1].end == rs[j].start);
    } else {
        assert(rs[i].start < rs[i].end && rs[i].end == rs[i + 1].start);
    }
}

/// The regions of a code section partition it: every address of the section lies in
/// exactly one region.
pub proof fn lemma_regions_partition(s: SectionView, mk: Map<u64, RegionKind>, fm: Map<u64, usize>, rs: Seq<RegionView>, a: u64)
    requires
        regions_ok(s, mk, fm, rs),
        s.address <= a,
        a < s.address + s.size,
    ensures
        exists|i: int| #![trigger rs[i]] 0 <= i < rs.len() && rs[i].start <= a < rs[i].end,
        forall|i: int, j: int|
            #![trigger rs[i], rs[j]]
            0 <= i < rs.len() && 0 <= j < rs.len() && rs[i].start <= a < rs[i].end && rs[j].start <= a < rs[j].end
                ==> i == j,
{
    assert forall|i: int, j: int|
        #![trigger rs[i], rs[j]]
        0 <= i < rs.len() && 0 <= j < rs.len() && rs[i].start <= a < rs[i].end && rs[j].start <= a < rs[j].end
            implies i == j by {
        if i < j {
            lemma_regions_ordered(s, mk, fm, rs, i, j);
        } else if j < i {
            lemma_regions_ordered(s, mk, fm, rs, j, i);
        }
    }
    lemma_region_from(s, mk, fm, rs, a, 0);
}

proof fn lemma_region_from(s: SectionView, mk: Map<u64, RegionKind>, fm: Map<u64, usize>, rs: Seq<RegionView>, a: u64, k: int)
    requires
        regions_ok(s, mk, fm, rs),
        0 <= k < rs.len(),
        rs[k].start <= a,
        a < s.address + s.size,
    ensures
        exists|i: int| #![trigger rs[i]] 0 <= i < rs.len() && rs[i].start <= a < rs[i].end,
    decreases rs.len() - k,
{
    if k + 1 < rs.len() && rs[k + 1].start <= a {
        lemma_region_from(s, mk, fm, rs, a, k + 1);
    } else {
        if k + 1 < rs.len() {
            assert(rs[k].start < rs[k].end && rs[k].end == rs[k + 1].start);
        }
        assert(rs[k].start <= a < rs[k].end);
    }
}

pub(crate) fn copy_range(d: &Vec<u8>, from: usize, to: usize) -> (r: Vec<u8>)
    requires
        from <= to <= d.len(),
    ensures
        r@ == d@.subrange(from as int, to as int),
{
    let mut r: Vec<u8> = Vec::new();
    let mut i = from;
    while i < to
        invariant
            from <= i <= to <= d.len(),
            r@ == d@.subrange(from as int, i as int),
        decreases to - i,
    {
        assert(d@.subrange(from as int, i + 1) =~= d@.subrange(from as int, i as int).push(d@[i as int]));
        r.push(d[i]);
        i = i + 1;
    }
    r
}

/// Splits a code section into regions at the mapping symbols that lie in it.
pub fn split_section(
    sec: &ImageSection,
    markers: &Vec<(u64, RegionKind)>,
    functions: &Vec<(u64, usize)>,
    Ghost(mk): Ghost<Map<u64, RegionKind>>,
    Ghost(fm): Ghost<Map<u64, usize>>,
) -> (rs: Vec<ImageRegion>)
    requires
        sound_section(sec@),
        represents(markers@, mk),
        represents(functions@, fm),
    ensures
        regions_ok(sec@, mk, fm, regions_view(rs@)),
{
    let d = match &sec.data {
        Some(d) => d,
        None => {
            return Vec::new();
        },
    };
    let s = sec.address;
    let e = s + sec.size;
    let ghost sv = sec@;
    let mut q = position(markers, s);
    let mut cur_start: u64 = s;
    let mut cur_kind = RegionKind::Data;
    if q < markers.len() && markers[q].0 == s {
        cur_kind = markers[q].1;
        q = q + 1;
    }
    proof {
        if mk.dom().contains(s) && !(cur_kind == mk[s]) {
            let j = choose|j: int| 0 <= j < markers@.len() && markers@[j].0 == s;
        }
    }
    let mut rs: Vec<ImageRegion> = Vec::new();
    let mut done = false;
    while !done
        invariant
            sv == sec@,
            sound_section(sv),
            sv.data == Some(d@),
            s == sv.address,
            e == sv.address + sv.size,
            represents(markers@, mk),
            represents(functions@, fm),
            s <= cur_start <= e,
            q <= markers.len(),
            forall|i: int| 0 <= i < q ==> #[trigger] markers@[i].0 <= cur_start,
            !done ==> forall|i: int| q <= i < markers.len() ==> cur_start < #[trigger] markers@[i].0,
            !done ==> if mk.dom().contains(cur_start) { cur_kind == mk[cur_start] } else { rs.len() == 0 && cur_kind == RegionKind::Data },
            rs.len() == 0 ==> cur_start == s && !done,
            rs.len() > 0 ==> regions_view(rs@)[0].start == s && regions_view(rs@).last().end == cur_start,
            done ==> rs.len() > 0 && cur_start == e,
            forall|i: int| 0 <= i < rs.len() - 1 ==> #[trigger] regions_view(rs@)[i].start < regions_view(rs@)[i].end
                && regions_view(rs@)[i].end == regions_view(rs@)[i + 1].start,
            forall|i: int| 0 <= i < rs.len() ==> region_ok(sv, mk, fm, #[trigger] regions_view(rs@)[i], i == 0),
            forall|i: int, a: u64|
                #![trigger regions_view(rs@)[i], mk.dom().contains(a)]
                0 <= i < rs.len() && mk.dom().contains(a) ==> !(regions_view(rs@)[i].start < a && a < regions_view(rs@)[i].end),
            rs.len() > 0 && !done ==> regions_view(rs@).last().start < cur_start,
        decreases (markers.len() - q) as int + if done { 0int } else { 1int },
    {
        let more = q < markers.len() && markers[q].0 < e;
        let next = if more { markers[q].0 } else { e };
        assert(cur_start <= next);
        assert(next - s <= sv.size);
        let dl = d.len();
        assert(next - s <= dl);
        let from = (cur_start - s) as usize;
        let to = (next - s) as usize;
        assert(from == cur_start - s && to == next - s);
        let bytes = copy_range(d, from, to);
        let function = map_get(functions, cur_start, Ghost(fm));
        let ghost old_rs = regions_view(rs@);
        let r = ImageRegion { start: cur_start, end: next, kind: cur_kind, bytes, function };
        rs.push(r);
        proof {
            let nrs = regions_view(rs@);
            assert(nrs =~= old_rs.push(r@));
            assert(s <= cur_start <= next <= e);
            assert(r@.bytes == sv.data->0.subrange(r@.start - sv.address, r@.end - sv.address));
            assert(if mk.dom().contains(r@.start) { r@.kind == mk[r@.start] } else { old_rs.len() == 0 && r@.kind == RegionKind::Data });
            assert(region_ok(sv, mk, fm, r@, old_rs.len() == 0));
            assert forall|a: u64| #[trigger] mk.dom().contains(a) implies !(cur_start < a && a < next) by {
                let j = choose|j: int| 0 <= j < markers@.len() && markers@[j].0 == a;
                if j < q {
                } else if more {
                    if j > q {
                        assert(markers@[q as int].0 < markers@[j].0);
                    }
                }
            }
            assert forall|i: int, a: u64|
                #![trigger nrs[i], mk.dom().contains(a)]
                0 <= i < nrs.len() && mk.dom().contains(a) implies !(nrs[i].start < a && a < nrs[i].end) by {
                if i < old_rs.len() {
                    assert(nrs[i] == old_rs[i]);
                }
            }
            assert forall|i: int| 0 <= i < nrs.len() implies region_ok(sv, mk, fm, #[trigger] nrs[i], i == 0) by {
                if i < old_rs.len() {
                    assert(nrs[i] == old_rs[i]);
                }
            }
            assert forall|i: int| 0 <= i < nrs.len() - 1 implies #[trigger] nrs[i].start < nrs[i].end
                && nrs[i].end == nrs[i + 1].start by {
                if i < old_rs.len() - 1 {
                    assert(nrs[i] == old_rs[i]);
                    assert(nrs[i + 1] == old_rs[i + 1]);
                } else {
                    assert(nrs[i] == old_rs[i]);
                }
            }
        }
        if more {
            cur_start = markers[q].0;
            cur_kind = markers[q].1;
            q = q + 1;
            proof {
                assert forall|i: int| q <= i < markers.len() implies cur_start < #[trigger] markers@[i].0 by {
                    assert(markers@[q - 1].0 < markers@[i].0);
                }
                assert forall|i: int| 0 <= i < q implies #[trigger] markers@[i].0 <= cur_start by {
                    if i < q - 1 {
                        assert(markers@[i].0 < markers@[q - 1].0);
                    }
                }
            }
        } else {
            cur_start = e;
            done = true;
        }
    }
    rs
}

/// The regions of one code section.
#[derive(Clone, Debug)]
pub struct SectionLayout {
    pub address: u64,
    pub regions: Vec<ImageRegion>,
}

pub struct SectionLayoutView {
    pub address: u64,
    pub regions: Seq<RegionView>,
}

impl View for SectionLayout {
    type V = SectionLayoutView;

    open spec fn view(&self) -> SectionLayoutView {
        SectionLayoutView { address: self.address, regions: regions_view(self.regions@) }
    }
}

pub open spec fn layouts_view(s: Seq<SectionLayout>) -> Seq<SectionLayoutView> {
    s.map_values(|l: SectionLayout| l@)
}

/// Bytes to be loaded at `address`.
#[derive(Clone, Debug)]
pub struct CodeSegment {
    pub address: u64,
    pub bytes: Vec<u8>,
}

impl View for CodeSegment {
    type V = (u64, Seq<u8>);

    open spec fn view(&self) -> (u64, Seq<u8>) {
        (self.address, self.bytes@)
    }
}

pub open spec fn segments_view(s: Seq<CodeSegment>) -> Seq<(u64, Seq<u8>)> {
    s.map_values(|c: CodeSegment| c@)
}

/// The code sections, in order.
pub open spec fn text_sections(secs: Seq<SectionView>) -> Seq<SectionView>
    decreases secs.len(),
{
    if secs.len() == 0 {
        Seq::empty()
    } else if secs.last().is_text {
        text_sections(secs.drop_last()).push(secs.last())
    } else {
        text_sections(secs.drop_last())
    }
}

/// `ls` holds, for each code section in order, its address and its regions.
pub open spec fn layouts_ok(secs: Seq<SectionView>, mk: Map<u64, RegionKind>, fm: Map<u64, usize>, ls: Seq<SectionLayoutView>) -> bool {
    &&& ls.len() == text_sections(secs).len()
    &&& forall|i: int| 0 <= i < ls.len() ==> #[trigger] ls[i].address == text_sections(secs)[i].address
        && regions_ok(text_sections(secs)[i], mk, fm, ls[i].regions)
}

/// The `j`-th halfword of `b`, little-endian; a last odd byte stands alone.
pub open spec fn half_value(b: Seq<u8>, j: int) -> u32 {
    if 2 * j + 1 < b.len() {
        (b[2 * j] as int + b[2 * j + 1] as int * 0x100) as u32
    } else {
        b[2 * j] as u32
    }
}

/// The halfwords of a data region, each with its address cut to 32 bits; none for code.
pub open spec fn region_halfwords(r: RegionView) -> Seq<(u64, u32)> {
    if r.kind == RegionKind::Data {
        Seq::new(((r.bytes.len() + 1) / 2) as nat, |j: int| ((((r.start + 2 * j) as u32) as u64), half_value(r.bytes, j)))
    } else {
        Seq::empty()
    }
}

pub open spec fn regions_halfwords(rs: Seq<RegionView>) -> Seq<(u64, u32)>
    decreases rs.len(),
{
    if rs.len() == 0 {
        Seq::empty()
    } else {
        regions_halfwords(rs.drop_last()) + region_halfwords(rs.last())
    }
}

/// All data halfwords of the image, in the order the sections and regions come.
pub open spec fn layout_halfwords(ls: Seq<SectionLayoutView>) -> Seq<(u64, u32)>
    decreases ls.len(),
{
    if ls.len() == 0 {
        Seq::empty()
    } else {
        layout_halfwords(ls.drop_last()) + regions_halfwords(ls.last().regions)
    }
}

/// The map that inserting the pairs in order builds; a later pair replaces an earlier one.
pub open spec fn pairs_map(p: Seq<(u64, u32)>) -> Map<u64, u32>
    decreases p.len(),
{
    if p.len() == 0 {
        Map::empty()
    } else {
        pairs_map(p.drop_last()).insert(p.last().0, p.last().1)
    }
}

pub open spec fn regions_segments(rs: Seq<RegionView>) -> Seq<(u64, Seq<u8>)>
    decreases rs.len(),
{
    if rs.len() == 0 {
        Seq::empty()
    } else if rs.last().kind == RegionKind::Thumb {
        regions_segments(rs.drop_last()).push((rs.last().start, rs.last().bytes))
    } else {
        regions_segments(rs.drop_last())
    }
}

/// The Thumb regions of the image, in order, as code to load at their start.
pub open spec fn layout_segments(ls: Seq<SectionLayoutView>) -> Seq<(u64, Seq<u8>)>
    decreases ls.len(),
{
    if ls.len() == 0 {
        Seq::empty()
    } else {
        layout_segments(ls.drop_last()) + regions_segments(ls.last().regions)
    }
}

/// A segment cut to what lies at or above `base`: dropped when it ends at or below it,
/// trimmed to start at `base` when it begins below it.
pub open spec fn clip_segment(seg: (u64, Seq<u8>), base: u64) -> Seq<(u64, Seq<u8>)> {
    if seg.0 + seg.1.len() <= base {
        Seq::empty()
    } else if seg.0 < base {
        seq![(base, seg.1.subrange(base - seg.0, seg.1.len() as int))]
    } else {
        seq![seg]
    }
}

pub open spec fn clip_segments(segs: Seq<(u64, Seq<u8>)>, base: u64) -> Seq<(u64, Seq<u8>)>
    decreases segs.len(),
{
    if segs.len() == 0 {
        Seq::empty()
    } else {
        clip_segments(segs.drop_last(), base) + clip_segment(segs.last(), base)
    }
}

/// Adds the halfwords of a data region to the map.
fn record_halfwords(r: &ImageRegion, dcw: &mut Vec<(u64, u32)>, Ghost(p): Ghost<Seq<(u64, u32)>>)
    requires
        r.start + r.bytes@.len() <= u64::MAX,
        represents(old(dcw)@, pairs_map(p)),
    ensures
        represents(final(dcw)@, pairs_map(p + region_halfwords(r@))),
{
    if r.kind != RegionKind::Data {
        assert(p + region_halfwords(r@) =~= p);
        return;
    }
    let ghost h = region_halfwords(r@);
    let n = r.bytes.len();
    let half = n / 2 + n % 2;
    let mut j: usize = 0;
    while j < half
        invariant
            n == r.bytes@.len(),
            half == (n + 1) / 2,
            r.kind == RegionKind::Data,
            h == region_halfwords(r@),
            h.len() == (n + 1) / 2,
            r.start + r.bytes@.len() <= u64::MAX,
            j <= half,
            represents(dcw@, pairs_map(p + h.take(j as int))),
        decreases half - j,
    {
        let addr = r.start + 2 * (j as u64);
        let value: u32 = if 2 * j + 1 < n {
            r.bytes[2 * j] as u32 + r.bytes[2 * j + 1] as u32 * 0x100
        } else {
            r.bytes[2 * j] as u32
        };
        let key = (#[verifier::truncate] (addr as u32)) as u64;
        assert(h[j as int] == (key, value));
        let ghost before = p + h.take(j as int);
        assert((p + h.take(j + 1)).drop_last() =~= before);
        map_insert(dcw, key, value, Ghost(pairs_map(before)));
        j = j + 1;
    }
    assert(h.take(h.len() as int) =~= h);
}

/// Adds the halfwords of the data regions to the map and the Thumb regions to the segments.
fn record_regions(
    rs: &Vec<ImageRegion>,
    dcw: &mut Vec<(u64, u32)>,
    segs: &mut Vec<CodeSegment>,
    Ghost(p): Ghost<Seq<(u64, u32)>>,
)
    requires
        forall|i: int| 0 <= i < rs@.len() ==> #[trigger] rs@[i].start + rs@[i].bytes@.len() <= u64::MAX,
        represents(old(dcw)@, pairs_map(p)),
    ensures
        represents(final(dcw)@, pairs_map(p + regions_halfwords(regions_view(rs@)))),
        segments_view(final(segs)@) == segments_view(old(segs)@) + regions_segments(regions_view(rs@)),
{
    let ghost rv = regions_view(rs@);
    let ghost segs0 = segments_view(segs@);
    let mut k: usize = 0;
    while k < rs.len()
        invariant
            rv == regions_view(rs@),
            k <= rs.len(),
            forall|i: int| 0 <= i < rs@.len() ==> #[trigger] rs@[i].start + rs@[i].bytes@.len() <= u64::MAX,
            represents(dcw@, pairs_map(p + regions_halfwords(rv.take(k as int)))),
            segments_view(segs@) == segs0 + regions_segments(rv.take(k as int)),
        decreases rs.len() - k,
    {
        let ghost before = p + regions_halfwords(rv.take(k as int));
        assert(rv.take(k + 1).drop_last() =~= rv.take(k as int));
        assert(rv.take(k + 1).last() == rs@[k as int]@);
        assert(p + regions_halfwords(rv.take(k + 1)) =~= before + region_halfwords(rs@[k as int]@));
        record_halfwords(&rs[k], dcw, Ghost(before));
        if rs[k].kind == RegionKind::Thumb {
            let ghost s_before = segments_view(segs@);
            segs.push(CodeSegment { address: rs[k].start, bytes: rs[k].bytes.clone() });
            assert(segments_view(segs@) =~= s_before.push((rs@[k as int].start, rs@[k as int].bytes@)));
        }
        k = k + 1;
    }
    assert(rv.take(rs.len() as int) =~= rv);
}


/// Cuts the segments to what lies at or above `base`.
pub fn clip_code_segments(raw: &Vec<CodeSegment>, base: u64) -> (r: Vec<CodeSegment>)
    ensures
        segments_view(r@) == clip_segments(segments_view(raw@), base),
{
    let ghost rv = segments_view(raw@);
    let mut out: Vec<CodeSegment> = Vec::new();
    let mut i: usize = 0;
    while i < raw.len()
        invariant
            rv == segments_view(raw@),
            i <= raw.len(),
            segments_view(out@) == clip_segments(rv.take(i as int), base),
        decreases raw.len() - i,
    {
        assert(rv.take(i + 1).drop_last() =~= rv.take(i as int));
        assert(rv.take(i + 1).last() == raw@[i as int]@);
        let ghost before = segments_view(out@);
        let seg = &raw[i];
        let len = seg.bytes.len() as u64;
        if seg.address > base || base - seg.address < len {
            if seg.address < base {
                let off = (base - seg.address) as usize;
                let bytes = copy_range(&seg.bytes, off, seg.bytes.len());
                out.push(CodeSegment { address: base, bytes });
            } else {
                out.push(CodeSegment { address: seg.address, bytes: seg.bytes.clone() });
            }
            assert(segments_view(out@) =~= before + clip_segment(raw@[i as int]@, base));
        } else {
            assert(clip_segment(raw@[i as int]@, base) =~= Seq::<(u64, Seq<u8>)>::empty());
            assert(before + clip_segment(raw@[i as int]@, base) =~= before);
        }
        i = i + 1;
    }
    assert(rv.take(raw.len() as int) =~= rv);
    out
}

/// What stops a code section from being laid out: its contents cannot be read, or they do
/// not cover its size, or it ends past the end of the address space.
pub open spec fn section_fault(s: SectionView) -> Option<ImageError> {
    if !s.is_text {
        None
    } else if s.data is None {
        Some(ImageError::SectionData { address: s.address })
    } else if !sound_section(s) {
        Some(ImageError::Malformed { address: s.address })
    } else {
        None
    }
}

/// The fault of the first code section that has one.
pub open spec fn section_problem(secs: Seq<SectionView>) -> Option<ImageError>
    decreases secs.len(),
{
    if secs.len() == 0 {
        None
    } else {
        match section_problem(secs.drop_last()) {
            Some(e) => Some(e),
            None => section_fault(secs.last()),
        }
    }
}

/// All code sections can be laid out.
pub open spec fn sections_sound(secs: Seq<SectionView>) -> bool {
    forall|i: int| 0 <= i < secs.len() && #[trigger] secs[i].is_text ==> sound_section(secs[i])
}

/// Finds the first code section that cannot be laid out.
pub fn check_sections(sections: &Vec<ImageSection>) -> (r: Option<ImageError>)
    ensures
        r == section_problem(sections_view(sections@)),
        r is None ==> sections_sound(sections_view(sections@)),
{
    let ghost sv = sections_view(sections@);
    let mut i: usize = 0;
    while i < sections.len()
        invariant
            sv == sections_view(sections@),
            i <= sections.len(),
            section_problem(sv.take(i as int)) is None,
            sections_sound(sv.take(i as int)),
        decreases sections.len() - i,
    {
        assert(sv.take(i + 1).drop_last() =~= sv.take(i as int));
        assert(sv.take(i + 1).last() == sections@[i as int]@);
        let s = &sections[i];
        if s.is_text {
            match &s.data {
                None => {
                    proof { lemma_problem_stays(sv, i + 1); }
                    return Some(ImageError::SectionData { address: s.address });
                },
                Some(d) => {
                    if !(s.address <= u64::MAX - s.size && s.size <= d.len() as u64) {
                        proof { lemma_problem_stays(sv, i + 1); }
                        return Some(ImageError::Malformed { address: s.address });
                    }
                },
            }
        }
        i = i + 1;
    }
    assert(sv.take(sections.len() as int) =~= sv);
    None
}

/// Once a prefix has a fault, the whole sequence has the same first fault.
proof fn lemma_problem_stays(secs: Seq<SectionView>, n: int)
    requires
        0 <= n <= secs.len(),
    ensures
        section_problem(secs.take(n)) is Some ==> section_problem(secs) == section_problem(secs.take(n)),
    decreases secs.len() - n,
{
    if n < secs.len() {
        lemma_problem_stays(secs, n + 1);
        assert(secs.take(n + 1).drop_last() =~= secs.take(n));
    } else {
        assert(secs.take(n) =~= secs);
    }
}

/// The layout of an image.
#[derive(Clone, Debug)]
pub struct ImageLayout {
    /// The first word of the vector table: the initial main stack pointer.
    pub initial_sp: u32,
    /// The second word of the vector table: the reset handler's address.
    pub reset_handler_ptr: u32,
    /// The address of the last function named like a reset handler.
    pub reset_handler: Option<u64>,
    /// The regions of the code sections, in order.
    pub sections: Vec<SectionLayout>,
    /// The Thumb regions at or above flash, in order, cut at the start of flash.
    pub code_segments: Vec<CodeSegment>,
    /// The data halfwords by (32-bit) address, in increasing order.
    pub dcw: Vec<(u64, u32)>,
    /// The symbols of the image, which `ImageRegion::function` indexes.
    pub symbols: Vec<ImageSymbol>,
}

/// `l` is the layout of an image with sections `secs` and symbols `syms`.
pub open spec fn layout_ok(secs: Seq<SectionView>, syms: Seq<SymbolView>, l: ImageLayout) -> bool {
    &&& l.initial_sp == vector_word(secs, FLASH_BASE)
    &&& l.reset_handler_ptr == vector_word(secs, (FLASH_BASE + 4) as u64)
    &&& l.reset_handler == reset_handler_of(syms)
    &&& layouts_ok(secs, marker_map(syms), function_map(syms), layouts_view(l.sections@))
    &&& represents(l.dcw@, pairs_map(layout_halfwords(layouts_view(l.sections@))))
    &&& segments_view(l.code_segments@) == clip_segments(layout_segments(layouts_view(l.sections@)), FLASH_BASE)
    &&& symbols_view(l.symbols@) == syms
}

/// Lays out an image whose code sections can all be laid out.
pub fn image_layout(sections: &Vec<ImageSection>, symbols: Vec<ImageSymbol>) -> (l: ImageLayout)
    requires
        sections_sound(sections_view(sections@)),
    ensures
        layout_ok(sections_view(sections@), symbols_view(symbols@), l),
{
    let initial_sp = read_vector_word(sections, FLASH_BASE);
    let reset_handler_ptr = read_vector_word(sections, FLASH_BASE + 4);
    let scan = scan_symbols(&symbols);
    let ghost mk = marker_map(symbols_view(symbols@));
    let ghost fm = function_map(symbols_view(symbols@));
    let ghost sv = sections_view(sections@);
    let mut layouts: Vec<SectionLayout> = Vec::new();
    let mut dcw: Vec<(u64, u32)> = Vec::new();
    let mut raw: Vec<CodeSegment> = Vec::new();
    let mut i: usize = 0;
    while i < sections.len()
        invariant
            sv == sections_view(sections@),
            sections_sound(sv),
            i <= sections.len(),
            represents(scan.markers@, mk),
            represents(scan.functions@, fm),
            layouts_ok(sv.take(i as int), mk, fm, layouts_view(layouts@)),
            represents(dcw@, pairs_map(layout_halfwords(layouts_view(layouts@)))),
            segments_view(raw@) == layout_segments(layouts_view(layouts@)),
        decreases sections.len() - i,
    {
        let ghost lv = layouts_view(layouts@);
        let ghost ts = text_sections(sv.take(i as int));
        assert(sv.take(i + 1).drop_last() =~= sv.take(i as int));
        assert(sv.take(i + 1).last() == sections@[i as int]@);
        if sections[i].is_text {
            assert(sv[i as int] == sections@[i as int]@);
            let rs = split_section(&sections[i], &scan.markers, &scan.functions, Ghost(mk), Ghost(fm));
            proof {
                let rv = regions_view(rs@);
                assert forall|k: int| 0 <= k < rs@.len() implies #[trigger] rs@[k].start + rs@[k].bytes@.len() <= u64::MAX by {
                    assert(rv[k] == rs@[k]@);
                    assert(region_ok(sv[i as int], mk, fm, rv[k], k == 0));
                }
            }
            record_regions(&rs, &mut dcw, &mut raw, Ghost(layout_halfwords(lv)));
            layouts.push(SectionLayout { address: sections[i].address, regions: rs });
            proof {
                let nlv = layouts_view(layouts@);
                assert(nlv =~= lv.push(layouts@[layouts@.len() - 1]@));
                assert(nlv.drop_last() =~= lv);
                assert(text_sections(sv.take(i + 1)) =~= ts.push(sv[i as int]));
                assert forall|k: int| 0 <= k < nlv.len() implies #[trigger] nlv[k].address == text_sections(sv.take(i + 1))[k].address
                    && regions_ok(text_sections(sv.take(i + 1))[k], mk, fm, nlv[k].regions) by {
                    if k < lv.len() {
                        assert(nlv[k] == lv[k]);
                    }
                }
            }
        } else {
            assert(text_sections(sv.take(i + 1)) =~= ts);
        }
        i = i + 1;
    }
    assert(sv.take(sections.len() as int) =~= sv);
    let code_segments = clip_code_segments(&raw, FLASH_BASE);
    ImageLayout {
        initial_sp,
        reset_handler_ptr,
        reset_handler: scan.reset_handler,
        sections: layouts,
        code_segments,
        dcw,
        symbols,
    }
}

/// Reads an image: the sections and symbols that the object file reader finds in `bytes`,
/// laid out. Fails when the reader rejects the bytes, or with the fault of the first code
/// section that cannot be laid out.
pub fn analyze_image(bytes: &[u8]) -> (r: Result<ImageLayout, ImageError>)
    ensures
        match object_contents(bytes@) {
            None => r == Err::<ImageLayout, ImageError>(ImageError::Parse),
            Some((secs, syms)) => match section_problem(secs) {
                Some(e) => r == Err::<ImageLayout, ImageError>(e),
                None => r matches Ok(l) && layout_ok(secs, syms, l),
            },
        },
{
    let (sections, symbols) = match read_object(bytes) {
        Ok(c) => c,
        Err(_) => {
            return Err(ImageError::Parse);
        },
    };
    match check_sections(&sections) {
        Some(e) => Err(e),
        None => Ok(image_layout(&sections, symbols)),
    }
}

/// What a code section gives to the code image that starts at `start`: its bytes from
/// `start` on when it holds `start`, all of them when it lies above `start`, none otherwise.
pub open spec fn axf_piece(s: SectionView, start: u64) -> Seq<u8> {
    if !s.is_text {
        Seq::empty()
    } else if s.address <= start && start < s.address + s.size {
        s.data->0.subrange(start - s.address, s.data->0.len() as int)
    } else if s.address >= start {
        s.data->0
    } else {
        Seq::empty()
    }
}

pub open spec fn axf_code(secs: Seq<SectionView>, start: u64) -> Seq<u8>
    decreases secs.len(),
{
    if secs.len() == 0 {
        Seq::empty()
    } else {
        axf_code(secs.drop_last(), start) + axf_piece(secs.last(), start)
    }
}

/// The code image that starts at `start`: the pieces of the code sections, in order.
pub fn axf_code_bytes(sections: &Vec<ImageSection>, start: u64) -> (r: Vec<u8>)
    requires
        sections_sound(sections_view(sections@)),
    ensures
        r@ == axf_code(sections_view(sections@), start),
{
    let ghost sv = sections_view(sections@);
    let mut out: Vec<u8> = Vec::new();
    let mut i: usize = 0;
    while i < sections.len()
        invariant
            sv == sections_view(sections@),
            sections_sound(sv),
            i <= sections.len(),
            out@ == axf_code(sv.take(i as int), start),
        decreases sections.len() - i,
    {
        assert(sv.take(i + 1).drop_last() =~= sv.take(i as int));
        assert(sv.take(i + 1).last() == sections@[i as int]@);
        assert(sv[i as int] == sections@[i as int]@);
        let s = &sections[i];
        if s.is_text {
            if let Some(d) = &s.data {
                let ghost before = out@;
                if s.address <= start && start - s.address < s.size {
                    assert(sv[i as int].is_text);
                    assert(sound_section(sv[i as int]));
                    let dl = d.len();
                    assert(start - s.address < dl);
                    let mut j = (start - s.address) as usize;
                    let ghost from = j as int;
                    while j < d.len()
                        invariant
                            0 <= from <= j <= d.len(),
                            out@ == before + d@.subrange(from, j as int),
                        decreases d.len() - j,
                    {
                        assert(d@.subrange(from, j + 1) =~= d@.subrange(from, j as int).push(d@[j as int]));
                        out.push(d[j]);
                        j = j + 1;
                    }
                } else if s.address >= start {
                    let mut j: usize = 0;
                    while j < d.len()
                        invariant
                            j <= d.len(),
                            out@ == before + d@.subrange(0, j as int),
                        decreases d.len() - j,
                    {
                        assert(d@.subrange(0, j + 1) =~= d@.subrange(0, j as int).push(d@[j as int]));
                        out.push(d[j]);
                        j = j + 1;
                    }
                    assert(d@.subrange(0, d@.len() as int) =~= d@);
                } else {
                    assert(before + axf_piece(sv[i as int], start) =~= before);
                }
            }
        } else {
            assert(out@ + axf_piece(sv[i as int], start) =~= out@);
        }
        i = i + 1;
    }
    assert(sv.take(sections.len() as int) =~= sv);
    out
}

/// An image read for loading: where execution starts (the reset handler, 0 when there is
/// none), the code from there on, and the data halfwords by address.
#[derive(Clone, Debug)]
pub struct AxfImage {
    pub start_address: u64,
    pub code: Vec<u8>,
    pub dcw: Vec<(u64, u32)>,
}

/// Reads an image for loading. Fails as `analyze_image` does.
pub fn parse_axf_image(bytes: &[u8]) -> (r: Result<AxfImage, ImageError>)
    ensures
        match object_contents(bytes@) {
            None => r == Err::<AxfImage, ImageError>(ImageError::Parse),
            Some((secs, syms)) => match section_problem(secs) {
                Some(e) => r == Err::<AxfImage, ImageError>(e),
                None => r matches Ok(a) && {
                    let start = match reset_handler_of(syms) {
                        Some(x) => x,
                        None => 0,
                    };
                    &&& a.start_address == start
                    &&& a.code@ == axf_code(secs, start)
                    &&& exists|l: ImageLayout| layout_ok(secs, syms, l) && l.dcw@ == a.dcw@
                },
            },
        },
{
    let (sections, symbols) = match read_object(bytes) {
        Ok(c) => c,
        Err(_) => {
            return Err(ImageError::Parse);
        },
    };
    match check_sections(&sections) {
        Some(e) => Err(e),
        None => {
            let layout = image_layout(&sections, symbols);
            let start = match layout.reset_handler {
                Some(x) => x,
                None => 0,
            };
            let code = axf_code_bytes(&sections, start);
            Ok(AxfImage { start_address: start, code, dcw: layout.dcw })
        },
    }
}

} // verus!
