//! Reading a firmware image (AXF/ELF): its sections and symbols, the vector table, the split
//! of code sections into Thumb and data regions, and the data halfwords.
use vstd::prelude::*;
use object::{Object, ObjectSection, ObjectSymbol};

pub mod sorted_map;
pub mod parser;
pub mod listing;

verus! {

/// What a region of a code section holds, as its mapping symbol (`$t` or `$d`) says.
#[derive(Clone, Copy, Debug, PartialEq, Eq, Structural)]
pub enum RegionKind {
    Thumb,
    Data,
}

/// A section of the image: where it is loaded, how large it is, whether it holds code,
/// and its contents (`None` when they cannot be read).
#[derive(Clone, Debug)]
pub struct ImageSection {
    pub address: u64,
    pub size: u64,
    pub is_text: bool,
    pub data: Option<Vec<u8>>,
}

pub struct SectionView {
    pub address: u64,
    pub size: u64,
    pub is_text: bool,
    pub data: Option<Seq<u8>>,
}

impl View for ImageSection {
    type V = SectionView;

    open spec fn view(&self) -> SectionView {
        SectionView {
            address: self.address,
            size: self.size,
            is_text: self.is_text,
            data: match self.data {
                Some(d) => Some(d@),
                None => None,
            },
        }
    }
}

/// A symbol of the image: its address, its name (`None` when it cannot be read) and
/// whether it names code.
#[derive(Clone, Debug)]
pub struct ImageSymbol {
    pub address: u64,
    pub name: Option<Vec<char>>,
    pub is_text: bool,
}

pub struct SymbolView {
    pub address: u64,
    pub name: Option<Seq<char>>,
    pub is_text: bool,
}

impl View for ImageSymbol {
    type V = SymbolView;

    open spec fn view(&self) -> SymbolView {
        SymbolView {
            address: self.address,
            name: match self.name {
                Some(n) => Some(n@),
                None => None,
            },
            is_text: self.is_text,
        }
    }
}

pub open spec fn sections_view(s: Seq<ImageSection>) -> Seq<SectionView> {
    s.map_values(|x: ImageSection| x@)
}

pub open spec fn symbols_view(s: Seq<ImageSymbol>) -> Seq<SymbolView> {
    s.map_values(|x: ImageSymbol| x@)
}

/// The error type of the object file reader.
#[verifier::external_type_specification]
#[verifier::external_body]
pub struct ExObjectError(object::Error);

/// The sections and symbols, in file order, that the object file reader finds in `bytes`;
/// `None` when it cannot parse them.
pub uninterp spec fn object_contents(bytes: Seq<u8>) -> Option<(Seq<SectionView>, Seq<SymbolView>)>;

/// Parses `bytes` with `object::File::parse` and lists its sections (address, size, whether
/// `kind()` is `SectionKind::Text`, `data()` when it succeeds) and its symbols (address,
/// `name()` when it succeeds, whether `kind()` is `SymbolKind::Text`), both in the order the
/// reader gives them. The contract says only that the result is a function of the bytes
/// (`object_contents`), and that an error comes exactly when that function has no value.
#[verifier::external_body]
fn read_object(bytes: &[u8]) -> (r: Result<(Vec<ImageSection>, Vec<ImageSymbol>), object::Error>)
    ensures
        match r {
            Ok((secs, syms)) => object_contents(bytes@) == Some((sections_view(secs@), symbols_view(syms@))),
            Err(_) => object_contents(bytes@) is None,
        },
{
    let file = object::File::parse(bytes)?;
    let secs = file.sections().map(|s| ImageSection {
        address: s.address(),
        size: s.size(),
        is_text: s.kind() == object::SectionKind::Text,
        data: s.data().ok().map(|d| d.to_vec()),
    }).collect();
    let syms = file.symbols().map(|s| ImageSymbol {
        address: s.address(),
        name: s.name().ok().map(|n| n.chars().collect()),
        is_text: s.kind() == object::SymbolKind::Text,
    }).collect();
    Ok((secs, syms))
}

/// Why an image could not be read.
#[derive(Clone, Copy, Debug, PartialEq, Eq, Structural)]
pub enum ImageError {
    /// The object file reader rejected the bytes.
    Parse,
    /// The contents of the code section at `address` could not be read.
    SectionData { address: u64 },
    /// The code section at `address` ends past the end of the address space, or holds fewer
    /// bytes than its size says.
    Malformed { address: u64 },
}

} // verus!
