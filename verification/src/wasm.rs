//! Reading the export table of a WebAssembly module: as much of the binary
//! format as it takes to list the names of the exported functions.
//!
//! A module is an eight-byte header followed by sections. A section is one
//! byte that tells its kind, the size of its body as a number, and the body.
//! The body of the export section is the number of exports followed by the
//! exports, each a name with its length before it, one byte that tells what
//! is exported, and an index as a number. Numbers are written as unsigned
//! LEB128 of 32 bits: seven bits to a byte, low bits first, the high bit set
//! on every byte but the last.

use crate::inspector::TestArtifact;
use crate::text::names_view;
use vstd::prelude::*;
use vstd::slice::{slice_subrange, slice_to_vec};
use vstd::utf8::{decode_utf8, valid_utf8};

verus! {

/// Why the export table of a module could not be read.
#[derive(Clone, Copy, Debug, PartialEq, Eq, Structural)]
pub enum ModuleError {
    /// The bytes do not begin with the header of a module.
    NotAModule,
    /// A section or a number is cut short, too large or out of place.
    Malformed,
    /// The name of an exported function is not UTF-8.
    NameNotText,
}

/// The kind of the export section.
pub const EXPORT_SECTION: u8 = 7;

/// The byte that marks an export as a function.
pub const FUNCTION_EXPORT: u8 = 0;

/// Converts bytes to text, by `String::from_utf8` of the standard library:
/// the text that the bytes encode where they are valid UTF-8, and nothing
/// where they are not.
#[verifier::external_body]
fn text_of(bytes: Vec<u8>) -> (text: Option<String>)
    ensures
        match text {
            Some(s) => valid_utf8(bytes@) && s@ == decode_utf8(bytes@),
            None => !valid_utf8(bytes@),
        },
{
    match String::from_utf8(bytes) {
        Ok(text) => Some(text),
        Err(_) => None,
    }
}

/// The weight of the byte `k` of a number: 128 to the power of `k`.
pub open spec fn scale(k: nat) -> nat {
    if k == 0 {
        1
    } else if k == 1 {
        128
    } else if k == 2 {
        16384
    } else if k == 3 {
        2097152
    } else {
        268435456
    }
}

/// What the bytes of a number from its byte `k` on, which stands at `at`,
/// add to its value, and the offset behind the number. There is no number
/// where the bytes end within it, where it has more than five bytes, and
/// where it does not fit into 32 bits.
pub open spec fn number_from(bytes: Seq<u8>, at: int, k: nat) -> Option<(nat, int)>
    decreases 5 - k,
{
    if k >= 5 || at < 0 || at >= bytes.len() {
        None
    } else {
        let b = bytes[at] as nat;
        if b < 128 {
            if k == 4 && b >= 16 {
                None
            } else {
                Some((b * scale(k), at + 1))
            }
        } else {
            match number_from(bytes, at + 1, k + 1) {
                Some((rest, next)) => Some((((b - 128) * scale(k) + rest) as nat, next)),
                None => None,
            }
        }
    }
}

/// The number that is written at `at`, and the offset behind it.
pub open spec fn number_at(bytes: Seq<u8>, at: int) -> Option<(nat, int)> {
    number_from(bytes, at, 0)
}

/// The bytes begin with the header of a module: the magic number and the
/// version one.
pub open spec fn has_header(bytes: Seq<u8>) -> bool {
    bytes.len() >= 8 && bytes.subrange(0, 8) == seq![0u8, 0x61u8, 0x73u8, 0x6du8, 1u8, 0u8, 0u8, 0u8]
}

/// The body of the first section of kind `id` among the sections from `at`
/// on, as the offsets of its first byte and behind its last; `None` where
/// there is no such section.
pub open spec fn section_at(bytes: Seq<u8>, at: int, id: u8) -> Result<Option<(int, int)>, ModuleError>
    decreases bytes.len() - at,
{
    if at < 0 || at >= bytes.len() {
        Ok(None)
    } else {
        match number_at(bytes, at + 1) {
            None => Err(ModuleError::Malformed),
            Some((size, body)) => if !(at < body + size <= bytes.len()) {
                Err(ModuleError::Malformed)
            } else if bytes[at] == id {
                Ok(Some((body, body + size)))
            } else {
                section_at(bytes, body + size, id)
            },
        }
    }
}

/// The names of the functions among the `count` exports that are written
/// from `at` to `end`, in order.
pub open spec fn functions_at(bytes: Seq<u8>, at: int, end: int, count: nat) -> Result<
    Seq<Seq<char>>,
    ModuleError,
>
    decreases count,
{
    if count == 0 {
        if at == end {
            Ok(Seq::empty())
        } else {
            Err(ModuleError::Malformed)
        }
    } else {
        match number_at(bytes, at) {
            None => Err(ModuleError::Malformed),
            Some((len, name_at)) => if name_at + len + 1 > end {
                Err(ModuleError::Malformed)
            } else {
                let name = bytes.subrange(name_at, name_at + len);
                let kind = bytes[name_at + len];
                match number_at(bytes, name_at + len + 1) {
                    None => Err(ModuleError::Malformed),
                    Some((_, next)) => if next > end {
                        Err(ModuleError::Malformed)
                    } else if kind == FUNCTION_EXPORT && !valid_utf8(name) {
                        Err(ModuleError::NameNotText)
                    } else {
                        match functions_at(bytes, next, end, (count - 1) as nat) {
                            Err(e) => Err(e),
                            Ok(rest) => Ok(
                                if kind == FUNCTION_EXPORT {
                                    seq![decode_utf8(name)] + rest
                                } else {
                                    rest
                                },
                            ),
                        }
                    },
                }
            },
        }
    }
}

/// The names of the functions that a module exports, in the order of its
/// export table; none where the module has no export section.
pub open spec fn exported_functions_of(bytes: Seq<u8>) -> Result<Seq<Seq<char>>, ModuleError> {
    if !has_header(bytes) {
        Err(ModuleError::NotAModule)
    } else {
        match section_at(bytes, 8, EXPORT_SECTION) {
            Err(e) => Err(e),
            Ok(None) => Ok(Seq::empty()),
            Ok(Some((start, end))) => match number_at(bytes, start) {
                None => Err(ModuleError::Malformed),
                Some((count, first)) => if first > end {
                    Err(ModuleError::Malformed)
                } else {
                    functions_at(bytes, first, end, count)
                },
            },
        }
    }
}

/// A number lies within the bytes, takes up at least one of them, and fits
/// into 32 bits.
pub proof fn lemma_number_bounds(bytes: Seq<u8>, at: int, k: nat)
    requires
        k <= 4,
    ensures
        number_from(bytes, at, k) matches Some((value, next)) ==> value + scale(k) <= 0x1_0000_0000
            && 0 <= at < next <= bytes.len(),
    decreases 5 - k,
{
    if 0 <= at < bytes.len() {
        let b = bytes[at] as nat;
        let unit = scale(k);
        let digit: nat = if b < 128 {
            b
        } else {
            (b - 128) as nat
        };
        if b >= 128 && k < 4 {
            lemma_number_bounds(bytes, at + 1, k + 1);
        }
        assert(unit <= 268435456);
        assert(k < 4 ==> 128 * unit == scale(k + 1));
        assert(digit * unit <= 127 * unit) by (nonlinear_arith)
            requires
                digit <= 127,
        ;
        if k == 4 && b < 16 {
            assert(digit * unit <= 15 * unit) by (nonlinear_arith)
                requires
                    digit <= 15,
            ;
        }
    }
}

/// The weight of the byte `k` of a number.
fn scale_of(k: u8) -> (unit: u64)
    requires
        k <= 4,
    ensures
        unit == scale(k as nat),
{
    if k == 0 {
        1
    } else if k == 1 {
        128
    } else if k == 2 {
        16384
    } else if k == 3 {
        2097152
    } else {
        268435456
    }
}

/// Reads a number from its byte `k` on.
fn read_number_from(bytes: &[u8], at: usize, k: u8) -> (number: Option<(u64, usize)>)
    requires
        k <= 4,
    ensures
        match number {
            Some((value, next)) => number_from(bytes@, at as int, k as nat) == Some(
                (value as nat, next as int),
            ),
            None => number_from(bytes@, at as int, k as nat) is None,
        },
    decreases 5 - k,
{
    if at >= bytes.len() {
        return None;
    }
    let b = bytes[at];
    let unit = scale_of(k);
    if b < 128 {
        if k == 4 && b >= 16 {
            None
        } else {
            assert(b as u64 * unit <= 127 * 268435456) by (nonlinear_arith)
                requires
                    b < 128,
                    unit <= 268435456,
            ;
            Some((b as u64 * unit, at + 1))
        }
    } else if k == 4 {
        None
    } else {
        match read_number_from(bytes, at + 1, k + 1) {
            Some((rest, next)) => {
                proof {
                    lemma_number_bounds(bytes@, at + 1, (k + 1) as nat);
                }
                assert((b - 128) as u64 * unit <= 127 * 268435456) by (nonlinear_arith)
                    requires
                        128 <= b < 256,
                        unit <= 268435456,
                ;
                Some(((b - 128) as u64 * unit + rest, next))
            },
            None => None,
        }
    }
}

/// Reads the number that is written at `at`: its value and the offset
/// behind it, or `None` where no number is written there.
pub fn read_number(bytes: &[u8], at: usize) -> (number: Option<(u32, usize)>)
    ensures
        match number {
            Some((value, next)) => number_at(bytes@, at as int) == Some((value as nat, next as int))
                && at < next <= bytes.len(),
            None => number_at(bytes@, at as int) is None,
        },
{
    match read_number_from(bytes, at, 0) {
        Some((value, next)) => {
            proof {
                lemma_number_bounds(bytes@, at as int, 0);
            }
            Some((value as u32, next))
        },
        None => None,
    }
}

/// Whether the bytes begin with the header of a module.
fn check_header(bytes: &[u8]) -> (ok: bool)
    ensures
        ok == has_header(bytes@),
{
    if bytes.len() < 8 {
        return false;
    }
    let ok = bytes[0] == 0 && bytes[1] == 0x61 && bytes[2] == 0x73 && bytes[3] == 0x6d && bytes[4]
        == 1 && bytes[5] == 0 && bytes[6] == 0 && bytes[7] == 0;
    proof {
        let head = bytes@.subrange(0, 8);
        let magic = seq![0u8, 0x61u8, 0x73u8, 0x6du8, 1u8, 0u8, 0u8, 0u8];
        if ok {
            assert(head =~= magic);
        } else {
            if head == magic {
                assert(head[0] == magic[0] && head[1] == magic[1] && head[2] == magic[2] && head[3]
                    == magic[3] && head[4] == magic[4] && head[5] == magic[5] && head[6] == magic[6]
                    && head[7] == magic[7]);
            }
        }
    }
    ok
}

/// Looks for the first section of kind `id` among the sections from `from`
/// on.
fn find_section(bytes: &[u8], from: usize, id: u8) -> (found: Result<Option<(usize, usize)>, ModuleError>)
    ensures
        match found {
            Ok(Some((start, end))) => section_at(bytes@, from as int, id) == Ok::<
                Option<(int, int)>,
                ModuleError,
            >(Some((start as int, end as int))) && start <= end <= bytes.len(),
            Ok(None) => section_at(bytes@, from as int, id) == Ok::<
                Option<(int, int)>,
                ModuleError,
            >(None),
            Err(e) => section_at(bytes@, from as int, id) == Err::<Option<(int, int)>, ModuleError>(e),
        },
{
    let mut at: usize = from;
    while at < bytes.len()
        invariant
            section_at(bytes@, from as int, id) == section_at(bytes@, at as int, id),
        decreases bytes.len() - at,
    {
        let kind = bytes[at];
        match read_number(bytes, at + 1) {
            None => {
                return Err(ModuleError::Malformed);
            },
            Some((size, body)) => {
                if size as usize > bytes.len() - body {
                    return Err(ModuleError::Malformed);
                }
                let end = body + size as usize;
                if kind == id {
                    return Ok(Some((body, end)));
                }
                at = end;
            },
        }
    }
    Ok(None)
}

/// What reading goes on to give once `names` have been read and `rest` is
/// what the exports that follow give.
pub open spec fn continued(names: Seq<Seq<char>>, rest: Result<Seq<Seq<char>>, ModuleError>) -> Result<
    Seq<Seq<char>>,
    ModuleError,
> {
    match rest {
        Ok(more) => Ok(names + more),
        Err(e) => Err(e),
    }
}

/// Reads the names of the functions among the `count` exports that are
/// written from `first` to `end`.
fn read_functions(bytes: &[u8], first: usize, end: usize, count: u32) -> (names: Result<
    Vec<String>,
    ModuleError,
>)
    requires
        first <= end <= bytes.len(),
    ensures
        match names {
            Ok(found) => functions_at(bytes@, first as int, end as int, count as nat) == Ok::<
                Seq<Seq<char>>,
                ModuleError,
            >(names_view(found@)),
            Err(e) => functions_at(bytes@, first as int, end as int, count as nat) == Err::<
                Seq<Seq<char>>,
                ModuleError,
            >(e),
        },
{
    let ghost whole = functions_at(bytes@, first as int, end as int, count as nat);
    let mut found: Vec<String> = Vec::new();
    let mut at: usize = first;
    let mut remaining: u32 = count;
    assert(names_view(found@) =~= Seq::<Seq<char>>::empty());
    assert(whole == continued(names_view(found@), whole)) by {
        if let Ok(more) = whole {
            assert(Seq::<Seq<char>>::empty() + more =~= more);
        }
    }
    while remaining > 0
        invariant
            at <= end <= bytes.len(),
            whole == functions_at(bytes@, first as int, end as int, count as nat),
            whole == continued(
                names_view(found@),
                functions_at(bytes@, at as int, end as int, remaining as nat),
            ),
        decreases remaining,
    {
        let ghost before = names_view(found@);
        let (len, name_at) = match read_number(bytes, at) {
            None => {
                return Err(ModuleError::Malformed);
            },
            Some(number) => number,
        };
        if name_at > end || len as usize >= end - name_at {
            return Err(ModuleError::Malformed);
        }
        let name_end = name_at + len as usize;
        let kind = bytes[name_end];
        let next = match read_number(bytes, name_end + 1) {
            None => {
                return Err(ModuleError::Malformed);
            },
            Some((_, next)) => next,
        };
        if next > end {
            return Err(ModuleError::Malformed);
        }
        if kind == FUNCTION_EXPORT {
            let name = slice_to_vec(slice_subrange(bytes, name_at, name_end));
            match text_of(name) {
                None => {
                    return Err(ModuleError::NameNotText);
                },
                Some(text) => {
                    found.push(text);
                },
            }
        }
        proof {
            let rest = functions_at(bytes@, next as int, end as int, (remaining - 1) as nat);
            let name = bytes@.subrange(name_at as int, name_end as int);
            if kind == FUNCTION_EXPORT {
                assert(names_view(found@) =~= before.push(decode_utf8(name)));
                if let Ok(more) = rest {
                    assert(before + (seq![decode_utf8(name)] + more) =~= before.push(
                        decode_utf8(name),
                    ) + more);
                }
            }
        }
        at = next;
        remaining = remaining - 1;
    }
    if at == end {
        assert(names_view(found@) + Seq::<Seq<char>>::empty() =~= names_view(found@));
        Ok(found)
    } else {
        Err(ModuleError::Malformed)
    }
}

/// Lists the names of the functions that a module exports, in the order of
/// its export table.
///
/// Fails with `NotAModule` where `bytes` do not begin with the header of a
/// module, with `Malformed` where the sections or the export table cannot
/// be read to their end, and with `NameNotText` where the name of an
/// exported function is not UTF-8. A module without export section exports
/// nothing.
pub fn exported_functions(bytes: &[u8]) -> (names: Result<Vec<String>, ModuleError>)
    ensures
        match names {
            Ok(found) => exported_functions_of(bytes@) == Ok::<Seq<Seq<char>>, ModuleError>(
                names_view(found@),
            ),
            Err(e) => exported_functions_of(bytes@) == Err::<Seq<Seq<char>>, ModuleError>(e),
        },
{
    if !check_header(bytes) {
        return Err(ModuleError::NotAModule);
    }
    match find_section(bytes, 8, EXPORT_SECTION) {
        Err(e) => Err(e),
        Ok(None) => {
            let none: Vec<String> = Vec::new();
            assert(names_view(none@) =~= Seq::<Seq<char>>::empty());
            Ok(none)
        },
        Ok(Some((start, end))) => match read_number(bytes, start) {
            None => Err(ModuleError::Malformed),
            Some((count, first)) => if first > end {
                Err(ModuleError::Malformed)
            } else {
                read_functions(bytes, first, end, count)
            },
        },
    }
}

/// Loads the module at `path`, of which `bytes` is the content: the artifact
/// with the functions that the module exports.
pub fn load(path: String, bytes: &[u8]) -> (artifact: Result<TestArtifact, ModuleError>)
    ensures
        match artifact {
            Ok(a) => a.location() == path@ && exported_functions_of(bytes@) == Ok::<
                Seq<Seq<char>>,
                ModuleError,
            >(a.export_names()),
            Err(e) => exported_functions_of(bytes@) == Err::<Seq<Seq<char>>, ModuleError>(e),
        },
{
    match exported_functions(bytes) {
        Ok(names) => Ok(TestArtifact::new(path, names)),
        Err(e) => Err(e),
    }
}

} // verus!
