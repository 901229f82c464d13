//! A declarative decoder for C-style structures: an ordered list of named,
//! fixed-width unsigned fields read left to right without padding.

use crate::common::str_eq;
use crate::endian::{lemma_encode_then_decode, lemma_uint_bytes_len};
use crate::endian::{pow256, read_uint, uint_bytes, uint_value};
use vstd::prelude::*;

verus! {

/// Error return value of structure parsers: the candidate does not match.
/// It carries no cause on purpose.
#[derive(Debug, Clone, Copy, PartialEq, Eq, Structural)]
pub struct StructureError;

/// A structure definition as plain text: each field's name and type tag.
pub type Layout = Seq<(Seq<char>, Seq<char>)>;

/// The layout that a slice of `(name, type tag)` pairs describes.
pub open spec fn layout_of(structure: Seq<(&str, &str)>) -> Layout {
    Seq::new(structure.len(), |i: int| (structure[i].0@, structure[i].1@))
}

/// The width in bytes of a field of type `ctype`, for the five type tags
/// that exist.
pub open spec fn type_width(ctype: Seq<char>) -> Option<nat> {
    if ctype == "u8"@ {
        Some(1)
    } else if ctype == "u16"@ {
        Some(2)
    } else if ctype == "u24"@ {
        Some(3)
    } else if ctype == "u32"@ {
        Some(4)
    } else if ctype == "u64"@ {
        Some(8)
    } else {
        None
    }
}

/// What a field of type `ctype` adds to the size of a structure: its width,
/// or nothing where the type tag is unknown.
pub open spec fn size_share(ctype: Seq<char>) -> nat {
    match type_width(ctype) {
        Some(width) => width,
        None => 0,
    }
}

/// The size of a structure: the sum of the widths of its recognized fields.
pub open spec fn structure_size(layout: Layout) -> nat
    decreases layout.len(),
{
    if layout.len() == 0 {
        0
    } else {
        structure_size(layout.drop_last()) + size_share(layout.last().1)
    }
}

/// Whether every field of the layout has a known type tag.
pub open spec fn all_types_known(layout: Layout) -> bool {
    forall|i: int| 0 <= i < layout.len() ==> (#[trigger] type_width(layout[i].1)) is Some
}

/// The mapping from field name to value that `data` holds under `layout`:
/// fields are read one after the other from the start of `data`; a field
/// whose name was seen before replaces the earlier value; there is no mapping
/// where a type tag is unknown or the data end before a field does.
pub open spec fn parse_fields(data: Seq<u8>, layout: Layout, big: bool) -> Option<
    Map<Seq<char>, u64>,
>
    decreases layout.len(),
{
    if layout.len() == 0 {
        Some(Map::empty())
    } else {
        let before = layout.drop_last();
        let field = layout.last();
        match (parse_fields(data, before, big), type_width(field.1)) {
            (Some(parsed), Some(width)) => {
                let start = structure_size(before);
                if start + width <= data.len() {
                    Some(
                        parsed.insert(
                            field.0,
                            uint_value(data.subrange(start as int, (start + width) as int), big) as u64,
                        ),
                    )
                } else {
                    None
                }
            },
            _ => None,
        }
    }
}

/// The mapping of field names to values that the decoder returns.
pub struct ParsedStructure {
    entries: Vec<(String, u64)>,
}

/// The mapping that a list of entries stands for; later entries win.
pub open spec fn entries_map(entries: Seq<(String, u64)>) -> Map<Seq<char>, u64>
    decreases entries.len(),
{
    if entries.len() == 0 {
        Map::empty()
    } else {
        entries_map(entries.drop_last()).insert(entries.last().0@, entries.last().1)
    }
}

impl View for ParsedStructure {
    type V = Map<Seq<char>, u64>;

    closed spec fn view(&self) -> Map<Seq<char>, u64> {
        entries_map(self.entries@)
    }
}

impl ParsedStructure {
    /// A mapping without fields.
    pub fn new() -> (parsed: ParsedStructure)
        ensures
            parsed@ == Map::<Seq<char>, u64>::empty(),
    {
        ParsedStructure { entries: Vec::new() }
    }

    /// Sets the value of field `name`, replacing an earlier one.
    pub fn insert(&mut self, name: &str, value: u64)
        ensures
            final(self)@ == old(self)@.insert(name@, value),
    {
        let ghost before = self.entries@;
        self.entries.push((name.to_owned(), value));
        assert(self.entries@.drop_last() =~= before);
    }

    /// The value of field `name`, if the mapping has one.
    pub fn get(&self, name: &str) -> (value: Option<u64>)
        ensures
            value == (if self@.contains_key(name@) {
                Some(self@[name@])
            } else {
                None
            }),
    {
        let mut i: usize = self.entries.len();
        assert(self.entries@.take(i as int) =~= self.entries@);
        while i > 0
            invariant
                i <= self.entries.len(),
                self@.contains_key(name@) == entries_map(self.entries@.take(i as int)).contains_key(
                    name@,
                ),
                self@.contains_key(name@) ==> self@[name@] == entries_map(
                    self.entries@.take(i as int),
                )[name@],
            decreases i,
        {
            let ghost upto = self.entries@.take(i as int);
            assert(upto.drop_last() =~= self.entries@.take(i - 1));
            i = i - 1;
            if str_eq(self.entries[i].0.as_str(), name) {
                return Some(self.entries[i].1);
            }
        }
        None
    }

    /// Whether the mapping has a field called `name`.
    pub fn contains(&self, name: &str) -> (found: bool)
        ensures
            found == self@.contains_key(name@),
    {
        self.get(name).is_some()
    }
}

/// The size in bytes of a field of type `ctype`, if the type tag is known.
pub fn type_to_size(ctype: &str) -> (size: Option<usize>)
    ensures
        match size {
            Some(n) => type_width(ctype@) == Some(n as nat),
            None => type_width(ctype@) is None,
        },
{
    if str_eq(ctype, "u8") {
        Some(1)
    } else if str_eq(ctype, "u16") {
        Some(2)
    } else if str_eq(ctype, "u24") {
        Some(3)
    } else if str_eq(ctype, "u32") {
        Some(4)
    } else if str_eq(ctype, "u64") {
        Some(8)
    } else {
        None
    }
}

/// The size of a prefix grows with the prefix.
proof fn lemma_take_step(layout: Layout, i: int)
    requires
        0 <= i < layout.len(),
    ensures
        layout.take(i + 1).drop_last() == layout.take(i),
        layout.take(i + 1).last() == layout[i],
        structure_size(layout.take(i + 1)) == structure_size(layout.take(i)) + size_share(
            layout[i].1,
        ),
{
    assert(layout.take(i + 1).drop_last() =~= layout.take(i));
}

/// Returns the size of a given structure definition: the sum of the widths
/// of its fields, where a field of unknown type counts for nothing. A sum
/// that a `usize` cannot hold is reported as `usize::MAX`.
pub fn size(structure: &[(&str, &str)]) -> (struct_size: usize)
    ensures
        struct_size == if structure_size(layout_of(structure@)) <= usize::MAX {
            structure_size(layout_of(structure@))
        } else {
            usize::MAX as nat
        },
{
    let ghost layout = layout_of(structure@);
    let mut struct_size: usize = 0;
    let mut i: usize = 0;
    while i < structure.len()
        invariant
            i <= structure.len(),
            layout == layout_of(structure@),
            struct_size == if structure_size(layout.take(i as int)) <= usize::MAX {
                structure_size(layout.take(i as int))
            } else {
                usize::MAX as nat
            },
        decreases structure.len() - i,
    {
        proof {
            lemma_take_step(layout, i as int);
        }
        match type_to_size(structure[i].1) {
            None => {},
            Some(member_size) => {
                struct_size = match struct_size.checked_add(member_size) {
                    Some(sum) => sum,
                    None => usize::MAX,
                };
            },
        }
        i = i + 1;
    }
    assert(layout.take(structure.len() as int) =~= layout);
    struct_size
}

/// Once a prefix of the layout cannot be parsed, no longer prefix can.
proof fn lemma_failure_stays(data: Seq<u8>, layout: Layout, big: bool, i: int, j: int)
    requires
        0 <= i <= j <= layout.len(),
        parse_fields(data, layout.take(i), big) is None,
    ensures
        parse_fields(data, layout.take(j), big) is None,
    decreases j - i,
{
    if i < j {
        lemma_failure_stays(data, layout, big, i, j - 1);
        assert(layout.take(j).drop_last() =~= layout.take(j - 1));
    }
}

/// Parses `data` as the C-style structure that `structure` describes and
/// returns the value of each field by name.
///
/// The type tags are `u8`, `u16`, `u24`, `u32` and `u64`. Fields are read
/// most significant byte first where `endianness` is `"big"`; any other
/// word, `"little"` included, reads them least significant byte first.
pub fn parse(data: &[u8], structure: &[(&str, &str)], endianness: &str) -> (result: Result<
    ParsedStructure,
    StructureError,
>)
    ensures
        match result {
            Ok(parsed) => parse_fields(
                data@,
                layout_of(structure@),
                endianness@ == "big"@,
            ) == Some(parsed@),
            Err(_) => parse_fields(data@, layout_of(structure@), endianness@ == "big"@) is None,
        },
{
    let ghost layout = layout_of(structure@);
    let big = str_eq(endianness, "big");
    let mut parsed = ParsedStructure::new();
    let mut offset: usize = 0;
    let mut i: usize = 0;
    while i < structure.len()
        invariant
            i <= structure.len(),
            layout == layout_of(structure@),
            big == (endianness@ == "big"@),
            offset == structure_size(layout.take(i as int)),
            offset <= data@.len() == data.len(),
            parse_fields(data@, layout.take(i as int), big) == Some(parsed@),
        decreases structure.len() - i,
    {
        proof {
            lemma_take_step(layout, i as int);
            assert(layout.take(structure.len() as int) =~= layout);
        }
        let name = structure[i].0;
        let csize = match type_to_size(structure[i].1) {
            Some(csize) => csize,
            None => {
                proof {
                    lemma_failure_stays(data@, layout, big, i + 1, layout.len() as int);
                }
                return Err(StructureError);
            },
        };
        if csize > data.len() - offset {
            proof {
                lemma_failure_stays(data@, layout, big, i + 1, layout.len() as int);
            }
            return Err(StructureError);
        }
        let value = read_uint(data, offset, csize, big);
        parsed.insert(name, value);
        offset = offset + csize;
        i = i + 1;
    }
    assert(layout.take(structure.len() as int) =~= layout);
    Ok(parsed)
}

/// A structure is parsed exactly when all its type tags are known and the
/// data are at least as long as the structure.
pub proof fn lemma_parse_succeeds_iff(data: Seq<u8>, layout: Layout, big: bool)
    ensures
        parse_fields(data, layout, big) is Some <==> all_types_known(layout) && structure_size(
            layout,
        ) <= data.len(),
    decreases layout.len(),
{
    if layout.len() > 0 {
        let before = layout.drop_last();
        lemma_parse_succeeds_iff(data, before, big);
        assert(all_types_known(layout) <==> all_types_known(before) && type_width(
            layout.last().1,
        ) is Some) by {
            if all_types_known(before) && type_width(layout.last().1) is Some {
                assert forall|i: int| 0 <= i < layout.len() implies (#[trigger] type_width(
                    layout[i].1,
                )) is Some by {
                    if i < layout.len() - 1 {
                        assert(layout[i] == before[i]);
                    }
                }
            }
            if all_types_known(layout) {
                assert forall|i: int| 0 <= i < before.len() implies (#[trigger] type_width(
                    before[i].1,
                )) is Some by {
                    assert(before[i] == layout[i]);
                }
            }
        }
    }
}

/// Encoding a value in a field's width and byte order and parsing the bytes
/// as that one field gives the value back, for every type tag and both byte
/// orders.
pub proof fn lemma_parse_decodes_encoding(name: Seq<char>, ctype: Seq<char>, value: u64, big: bool)
    requires
        type_width(ctype) is Some,
        value < pow256(type_width(ctype).unwrap()),
    ensures
        parse_fields(
            uint_bytes(value as nat, type_width(ctype).unwrap(), big),
            seq![(name, ctype)],
            big,
        ) == Some(Map::<Seq<char>, u64>::empty().insert(name, value)),
{
    let width = type_width(ctype).unwrap();
    let data = uint_bytes(value as nat, width, big);
    let layout: Layout = seq![(name, ctype)];
    lemma_uint_bytes_len(value as nat, width, big);
    lemma_encode_then_decode(value as nat, width, big);
    assert(data.subrange(0, width as int) =~= data);
    reveal_with_fuel(parse_fields, 2);
    reveal_with_fuel(structure_size, 2);
}

} // verus!
