//! Disassembly of an image's Thumb regions with Capstone, and the instructions that the
//! listing shows.
use vstd::prelude::*;
use capstone::Capstone;
use capstone::arch::{BuildsCapstone, BuildsCapstoneExtraMode};
use capstone::arch::arm::{ArchMode, ArchExtraMode};
use crate::disassembler::RegionKind;
use crate::disassembler::parser::{
    FLASH_BASE, ImageLayout, ImageRegion, RegionView, SectionLayout, SectionLayoutView,
    regions_view, layouts_view, regions_segments, layout_segments, copy_range,
};

verus! {

/// One instruction as Capstone gives it: address, encoding, instruction id, mnemonic and
/// operand text.
#[derive(Clone, Debug)]
pub struct InsnRecord {
    pub address: u64,
    pub bytes: Vec<u8>,
    pub id: u32,
    pub mnemonic: String,
    pub op_str: String,
}

pub struct InsnView {
    pub address: u64,
    pub bytes: Seq<u8>,
    pub id: u32,
    pub mnemonic: Seq<char>,
    pub op_str: Seq<char>,
}

impl View for InsnRecord {
    type V = InsnView;

    open spec fn view(&self) -> InsnView {
        InsnView {
            address: self.address,
            bytes: self.bytes@,
            id: self.id,
            mnemonic: self.mnemonic@,
            op_str: self.op_str@,
        }
    }
}

pub open spec fn records_view(s: Seq<InsnRecord>) -> Seq<InsnView> {
    s.map_values(|r: InsnRecord| r@)
}

/// What Capstone, set up for Thumb code of an M-profile core with instruction detail,
/// disassembles from `code` loaded at `address`; `None` when it reports an error.
pub uninterp spec fn capstone_thumb(code: Seq<u8>, address: u64) -> Option<Seq<InsnView>>;

/// Builds a Capstone instance for Thumb code of an M-profile core with detail on, and runs
/// `Capstone::disasm_all` on `code` at `address`; each instruction is copied into a record
/// (`Insn::address`, `bytes`, `id`, and `mnemonic`/`op_str`, empty where Capstone has none).
/// The contract says only that the result is a function of the code and the address
/// (`capstone_thumb`), and that `None` comes exactly when that function has no value.
#[verifier::external_body]
fn disasm_thumb(code: &Vec<u8>, address: u64) -> (r: Option<Vec<InsnRecord>>)
    ensures
        match r {
            Some(v) => capstone_thumb(code@, address) == Some(records_view(v@)),
            None => capstone_thumb(code@, address) is None,
        },
{
    let modes = [ArchExtraMode::MClass];
    let cs = Capstone::new().arm().mode(ArchMode::Thumb).extra_mode(modes.iter().copied()).detail(true).build().ok()?;
    let insns = cs.disasm_all(code.as_slice(), address).ok()?;
    Some(insns.iter().map(|i| InsnRecord {
        address: i.address(),
        bytes: i.bytes().to_vec(),
        id: i.id().0,
        mnemonic: i.mnemonic().unwrap_or_default().to_string(),
        op_str: i.op_str().unwrap_or_default().to_string(),
    }).collect())
}

impl InsnRecord {
    /// A copy of the record.
    pub fn copy(&self) -> (c: InsnRecord)
        ensures
            c@ == self@,
    {
        let bytes = copy_range(&self.bytes, 0, self.bytes.len());
        assert(bytes@ =~= self.bytes@);
        InsnRecord {
            address: self.address,
            bytes,
            id: self.id,
            mnemonic: self.mnemonic.clone(),
            op_str: self.op_str.clone(),
        }
    }
}

/// Disassembles Thumb code loaded at `address` with Capstone (see `capstone_thumb`);
/// `None` when Capstone reports an error.
pub fn disassemble_thumb(code: &Vec<u8>, address: u64) -> (r: Option<Vec<InsnRecord>>)
    ensures
        match r {
            Some(v) => capstone_thumb(code@, address) == Some(records_view(v@)),
            None => capstone_thumb(code@, address) is None,
        },
{
    disasm_thumb(code, address)
}

/// Why an image could not be disassembled.
#[derive(Clone, Copy, Debug, PartialEq, Eq, Structural)]
pub enum DisasmError {
    /// Capstone reported an error on the Thumb region that starts at `address`.
    Capstone { address: u64 },
}

/// The instructions of the Thumb segments `segs`, in order; the start of the first segment
/// that Capstone cannot disassemble, if any.
pub open spec fn disasm_segments(segs: Seq<(u64, Seq<u8>)>) -> Result<Seq<InsnView>, u64>
    decreases segs.len(),
{
    if segs.len() == 0 {
        Ok(Seq::empty())
    } else {
        match disasm_segments(segs.drop_last()) {
            Err(a) => Err(a),
            Ok(pre) => match capstone_thumb(segs.last().1, segs.last().0) {
                None => Err(segs.last().0),
                Some(v) => Ok(pre + v),
            },
        }
    }
}

/// The instructions at or above the start of flash, in order.
pub open spec fn in_flash(s: Seq<InsnView>) -> Seq<InsnView>
    decreases s.len(),
{
    if s.len() == 0 {
        Seq::empty()
    } else if s.last().address >= FLASH_BASE {
        in_flash(s.drop_last()).push(s.last())
    } else {
        in_flash(s.drop_last())
    }
}

/// The disassembly of an image: where the listing starts and the instructions it shows.
pub struct Disassembly {
    pub start_address: u64,
    pub instructions: Vec<InsnRecord>,
}

/// Disassembles one region when it holds Thumb code, adding its instructions at or above
/// flash to `out`.
fn disasm_region(r: &ImageRegion, out: &mut Vec<InsnRecord>, Ghost(all): Ghost<Seq<InsnView>>) -> (res: Result<
    Ghost<Seq<InsnView>>,
    DisasmError,
>)
    requires
        records_view(old(out)@) == in_flash(all),
    ensures
        match disasm_segments(regions_segments(seq![r@])) {
            Err(a) => res == Err::<Ghost<Seq<InsnView>>, DisasmError>(DisasmError::Capstone { address: a }),
            Ok(v) => res matches Ok(g) && g@ == all + v && records_view(final(out)@) == in_flash(all + v),
        },
{
    proof {
        lemma_one_region(r@);
        assert(disasm_segments(Seq::<(u64, Seq<u8>)>::empty()) == Ok::<Seq<InsnView>, u64>(Seq::empty()));
        lemma_one_segment((r.start, r.bytes@));
    }
    match r.kind {
        RegionKind::Data => {
            assert(all + Seq::<InsnView>::empty() =~= all);
            return Ok(Ghost(all));
        },
        RegionKind::Thumb => {},
    }
    let insns = match disasm_thumb(&r.bytes, r.start) {
        Some(v) => v,
        None => {
            return Err(DisasmError::Capstone { address: r.start });
        },
    };
    let ghost v = records_view(insns@);
    assert(Seq::<InsnView>::empty() + v =~= v);
    let mut k: usize = 0;
    while k < insns.len()
        invariant
            k <= insns@.len(),
            v == records_view(insns@),
            records_view(out@) == in_flash(all + v.take(k as int)),
        decreases insns@.len() - k,
    {
        let ghost before = all + v.take(k as int);
        assert(all + v.take(k as int + 1) =~= before.push(v[k as int]));
        assert(before.push(v[k as int]).drop_last() =~= before);
        if insns[k].address >= FLASH_BASE {
            let ghost old_out = out@;
            out.push(insns[k].copy());
            assert(records_view(out@) =~= records_view(old_out).push(v[k as int]));
        }
        k = k + 1;
    }
    assert(v.take(insns@.len() as int) =~= v);
    Ok(Ghost(all + v))
}

/// The instructions of `a` followed by those of `b`: a failure in `a` comes first.
proof fn lemma_disasm_append(a: Seq<(u64, Seq<u8>)>, b: Seq<(u64, Seq<u8>)>)
    ensures
        disasm_segments(a + b) == match disasm_segments(a) {
            Err(x) => Err(x),
            Ok(va) => match disasm_segments(b) {
                Err(y) => Err(y),
                Ok(vb) => Ok::<Seq<InsnView>, u64>(va + vb),
            },
        },
    decreases b.len(),
{
    if b.len() == 0 {
        assert(a + b =~= a);
        match disasm_segments(a) {
            Ok(va) => {
                assert(va + Seq::<InsnView>::empty() =~= va);
            },
            Err(_) => {},
        }
    } else {
        lemma_disasm_append(a, b.drop_last());
        assert((a + b).drop_last() =~= a + b.drop_last());
        assert((a + b).last() == b.last());
        match disasm_segments(a) {
            Ok(va) => match disasm_segments(b.drop_last()) {
                Ok(vb) => match capstone_thumb(b.last().1, b.last().0) {
                    Some(w) => {
                        assert(va + vb + w =~= va + (vb + w));
                    },
                    None => {},
                },
                Err(_) => {},
            },
            Err(_) => {},
        }
    }
}

/// The Thumb segments of two runs of regions, one after the other.
proof fn lemma_regions_append(a: Seq<RegionView>, b: Seq<RegionView>)
    ensures
        regions_segments(a + b) == regions_segments(a) + regions_segments(b),
    decreases b.len(),
{
    if b.len() == 0 {
        assert(a + b =~= a);
        assert(regions_segments(a) + regions_segments(b) =~= regions_segments(a));
    } else {
        lemma_regions_append(a, b.drop_last());
        assert((a + b).drop_last() =~= a + b.drop_last());
        assert((a + b).last() == b.last());
        let x = b.last();
        if x.kind == RegionKind::Thumb {
            assert((regions_segments(a) + regions_segments(b.drop_last())).push((x.start, x.bytes)) =~= regions_segments(a)
                + regions_segments(b.drop_last()).push((x.start, x.bytes)));
        }
    }
}

/// The Thumb segments of two runs of sections, one after the other.
proof fn lemma_layout_append(a: Seq<SectionLayoutView>, b: Seq<SectionLayoutView>)
    ensures
        layout_segments(a + b) == layout_segments(a) + layout_segments(b),
    decreases b.len(),
{
    if b.len() == 0 {
        assert(a + b =~= a);
        assert(layout_segments(a) + layout_segments(b) =~= layout_segments(a));
    } else {
        lemma_layout_append(a, b.drop_last());
        assert((a + b).drop_last() =~= a + b.drop_last());
        assert((a + b).last() == b.last());
        assert(layout_segments(a) + layout_segments(b.drop_last()) + regions_segments(b.last().regions) =~= layout_segments(a)
            + (layout_segments(b.drop_last()) + regions_segments(b.last().regions)));
    }
}

/// The segments of a single region: its bytes at its start when it holds Thumb code.
proof fn lemma_one_region(x: RegionView)
    ensures
        regions_segments(seq![x]) == (if x.kind == RegionKind::Thumb {
            seq![(x.start, x.bytes)]
        } else {
            Seq::<(u64, Seq<u8>)>::empty()
        }),
{
    assert(seq![x].drop_last() =~= Seq::<RegionView>::empty());
    assert(seq![x].last() == x);
    assert(regions_segments(Seq::<RegionView>::empty()) == Seq::<(u64, Seq<u8>)>::empty());
    assert(Seq::<(u64, Seq<u8>)>::empty().push((x.start, x.bytes)) =~= seq![(x.start, x.bytes)]);
}

/// What Capstone makes of a single segment.
proof fn lemma_one_segment(seg: (u64, Seq<u8>))
    ensures
        disasm_segments(seq![seg]) == match capstone_thumb(seg.1, seg.0) {
            None => Err::<Seq<InsnView>, u64>(seg.0),
            Some(v) => Ok(v),
        },
{
    assert(seq![seg].drop_last() =~= Seq::<(u64, Seq<u8>)>::empty());
    assert(seq![seg].last() == seg);
    assert(disasm_segments(Seq::<(u64, Seq<u8>)>::empty()) == Ok::<Seq<InsnView>, u64>(Seq::empty()));
    match capstone_thumb(seg.1, seg.0) {
        Some(v) => {
            assert(Seq::<InsnView>::empty() + v =~= v);
        },
        None => {},
    }
}

/// Disassembles the Thumb regions of one section, adding the instructions at or above flash
/// to `out`.
fn disasm_section(s: &SectionLayout, out: &mut Vec<InsnRecord>, Ghost(all): Ghost<Seq<InsnView>>) -> (res: Result<
    Ghost<Seq<InsnView>>,
    DisasmError,
>)
    requires
        records_view(old(out)@) == in_flash(all),
    ensures
        match disasm_segments(regions_segments(regions_view(s.regions@))) {
            Err(a) => res == Err::<Ghost<Seq<InsnView>>, DisasmError>(DisasmError::Capstone { address: a }),
            Ok(v) => res matches Ok(g) && g@ == all + v && records_view(final(out)@) == in_flash(all + v),
        },
{
    let ghost rs = regions_view(s.regions@);
    let ghost mut acc = all;
    let mut j: usize = 0;
    assert(rs.take(0) =~= Seq::<RegionView>::empty());
    assert(all + Seq::<InsnView>::empty() =~= all);
    while j < s.regions.len()
        invariant
            j <= s.regions@.len(),
            rs == regions_view(s.regions@),
            disasm_segments(regions_segments(rs.take(j as int))) matches Ok(v) && acc == all + v,
            records_view(out@) == in_flash(acc),
        decreases s.regions@.len() - j,
    {
        let ghost pre = regions_segments(rs.take(j as int));
        let ghost one = regions_segments(seq![rs[j as int]]);
        proof {
            assert(rs.take(j as int + 1) =~= rs.take(j as int) + seq![rs[j as int]]);
            lemma_regions_append(rs.take(j as int), seq![rs[j as int]]);
            lemma_disasm_append(pre, one);
            assert(s.regions@[j as int]@ == rs[j as int]);
        }
        let res = disasm_region(&s.regions[j], out, Ghost(acc));
        match res {
            Err(e) => {
                proof {
                    assert(rs.take(j as int + 1) + rs.skip(j as int + 1) =~= rs);
                    lemma_regions_append(rs.take(j as int + 1), rs.skip(j as int + 1));
                    lemma_disasm_append(regions_segments(rs.take(j as int + 1)), regions_segments(rs.skip(j as int + 1)));
                }
                return Err(e);
            },
            Ok(g) => {
                proof {
                    let vp = disasm_segments(pre)->Ok_0;
                    let vo = disasm_segments(one)->Ok_0;
                    assert(g@ == all + (vp + vo)) by {
                        assert(acc + vo =~= all + (vp + vo));
                    }
                    acc = g@;
                }
            },
        }
        j = j + 1;
    }
    assert(rs.take(s.regions@.len() as int) =~= rs);
    Ok(Ghost(acc))
}

/// The Thumb segments of the first `i` sections, then of one more.
proof fn lemma_layout_step(ls: Seq<SectionLayoutView>, i: int)
    requires
        0 <= i < ls.len(),
    ensures
        layout_segments(ls.take(i + 1)) == layout_segments(ls.take(i)) + regions_segments(ls[i].regions),
{
    assert(ls.take(i + 1).drop_last() =~= ls.take(i));
    assert(ls.take(i + 1).last() == ls[i]);
}

/// Disassembles the Thumb regions of `layout` in order and keeps the instructions at or
/// above the start of flash, where the listing starts. Fails, naming the region, on the
/// first Thumb region that Capstone cannot disassemble.
pub fn disassemble_layout(layout: &ImageLayout) -> (r: Result<Disassembly, DisasmError>)
    ensures
        match disasm_segments(layout_segments(layouts_view(layout.sections@))) {
            Err(a) => r == Err::<Disassembly, DisasmError>(DisasmError::Capstone { address: a }),
            Ok(v) => r matches Ok(d) && d.start_address == FLASH_BASE && records_view(d.instructions@) == in_flash(v),
        },
{
    let ghost ls = layouts_view(layout.sections@);
    let mut out: Vec<InsnRecord> = Vec::new();
    let ghost mut acc: Seq<InsnView> = Seq::empty();
    let mut i: usize = 0;
    assert(ls.take(0) =~= Seq::<SectionLayoutView>::empty());
    assert(records_view(out@) =~= Seq::<InsnView>::empty());
    while i < layout.sections.len()
        invariant
            i <= layout.sections@.len(),
            ls == layouts_view(layout.sections@),
            disasm_segments(layout_segments(ls.take(i as int))) == Ok::<Seq<InsnView>, u64>(acc),
            records_view(out@) == in_flash(acc),
        decreases layout.sections@.len() - i,
    {
        let ghost pre = layout_segments(ls.take(i as int));
        let ghost one = regions_segments(ls[i as int].regions);
        proof {
            lemma_layout_step(ls, i as int);
            lemma_disasm_append(pre, one);
            assert(layout.sections@[i as int]@ == ls[i as int]);
        }
        let res = disasm_section(&layout.sections[i], &mut out, Ghost(acc));
        match res {
            Err(e) => {
                proof {
                    assert(ls.take(i as int + 1) + ls.skip(i as int + 1) =~= ls);
                    lemma_layout_append(ls.take(i as int + 1), ls.skip(i as int + 1));
                    lemma_disasm_append(layout_segments(ls.take(i as int + 1)), layout_segments(ls.skip(i as int + 1)));
                }
                return Err(e);
            },
            Ok(g) => {
                proof {
                    acc = g@;
                }
            },
        }
        i = i + 1;
    }
    assert(ls.take(layout.sections@.len() as int) =~= ls);
    Ok(Disassembly { start_address: FLASH_BASE, instructions: out })
}

} // verus!
