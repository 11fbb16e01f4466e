//! The sampler naming grammar.
//!
//! A sampler binding carries its parameters in its declared name:
//! `sampler_` followed by one letter for the texel filter, one letter for the
//! mipmap mode and a one- or two-letter address code.

use crate::error::ResourceError;
use vstd::prelude::*;
use vstd::string::StrSliceExecFns;

verus! {

/// How texels are filtered.
#[derive(Clone, Copy, Debug, PartialEq, Eq, Structural)]
pub enum Filter {
    Nearest,
    Linear,
}

/// How mipmap levels are blended.
#[derive(Clone, Copy, Debug, PartialEq, Eq, Structural)]
pub enum MipmapMode {
    Nearest,
    Linear,
}

/// What happens to coordinates outside the image.
#[derive(Clone, Copy, Debug, PartialEq, Eq, Structural)]
pub enum AddressMode {
    Repeat,
    MirroredRepeat,
    ClampToEdge,
    ClampToBorder,
}

/// The parameters of an immutable sampler.
#[derive(Clone, Copy, Debug, PartialEq, Eq, Structural)]
pub struct SamplerDesc {
    pub texel_filter: Filter,
    pub mipmap_mode: MipmapMode,
    pub address_modes: AddressMode,
}

/// Number of characters in the `sampler_` prefix.
pub const SAMPLER_PREFIX_LEN: usize = 8;

/// Whether `name` begins with `sampler_`.
pub open spec fn has_sampler_prefix(name: Seq<char>) -> bool {
    &&& name.len() >= 8
    &&& name[0] == 's'
    &&& name[1] == 'a'
    &&& name[2] == 'm'
    &&& name[3] == 'p'
    &&& name[4] == 'l'
    &&& name[5] == 'e'
    &&& name[6] == 'r'
    &&& name[7] == '_'
}

/// The texel filter that a filter letter stands for.
pub open spec fn spec_filter(c: char) -> Option<Filter> {
    if c == 'n' {
        Some(Filter::Nearest)
    } else if c == 'l' {
        Some(Filter::Linear)
    } else {
        None
    }
}

/// The mipmap mode that a mipmap letter stands for.
pub open spec fn spec_mipmap(c: char) -> Option<MipmapMode> {
    if c == 'n' {
        Some(MipmapMode::Nearest)
    } else if c == 'l' {
        Some(MipmapMode::Linear)
    } else {
        None
    }
}

/// The address mode that an address code stands for: `r`, `mr`, `c` or `cb`.
pub open spec fn spec_address(code: Seq<char>) -> Option<AddressMode> {
    if code.len() == 1 && code[0] == 'r' {
        Some(AddressMode::Repeat)
    } else if code.len() == 2 && code[0] == 'm' && code[1] == 'r' {
        Some(AddressMode::MirroredRepeat)
    } else if code.len() == 1 && code[0] == 'c' {
        Some(AddressMode::ClampToEdge)
    } else if code.len() == 2 && code[0] == 'c' && code[1] == 'b' {
        Some(AddressMode::ClampToBorder)
    } else {
        None
    }
}

/// The sampler that a binding name describes, if the name follows the grammar.
pub open spec fn spec_parse_sampler(name: Seq<char>) -> Option<SamplerDesc> {
    if has_sampler_prefix(name) && name.len() >= 10 {
        match (
            spec_filter(name[8]),
            spec_mipmap(name[9]),
            spec_address(name.subrange(10, name.len() as int)),
        ) {
            (Some(f), Some(m), Some(a)) => Some(
                SamplerDesc { texel_filter: f, mipmap_mode: m, address_modes: a },
            ),
            _ => None,
        }
    } else {
        None
    }
}

/// Reads a filter letter.
pub fn parse_filter(c: char) -> (r: Option<Filter>)
    ensures
        r == spec_filter(c),
{
    if c == 'n' {
        Some(Filter::Nearest)
    } else if c == 'l' {
        Some(Filter::Linear)
    } else {
        None
    }
}

/// Reads a mipmap letter.
pub fn parse_mipmap(c: char) -> (r: Option<MipmapMode>)
    ensures
        r == spec_mipmap(c),
{
    if c == 'n' {
        Some(MipmapMode::Nearest)
    } else if c == 'l' {
        Some(MipmapMode::Linear)
    } else {
        None
    }
}

/// Reads the address code that occupies `name` from position `start` to its end.
fn parse_address(name: &str, start: usize, len: usize) -> (r: Option<AddressMode>)
    requires
        len == name@.len(),
        start <= len,
    ensures
        r == spec_address(name@.subrange(start as int, len as int)),
{
    let rest: usize = len - start;
    if rest == 1 {
        let c = name.get_char(start);
        if c == 'r' {
            Some(AddressMode::Repeat)
        } else if c == 'c' {
            Some(AddressMode::ClampToEdge)
        } else {
            None
        }
    } else if rest == 2 {
        let c = name.get_char(start);
        let d = name.get_char(start + 1);
        if c == 'm' && d == 'r' {
            Some(AddressMode::MirroredRepeat)
        } else if c == 'c' && d == 'b' {
            Some(AddressMode::ClampToBorder)
        } else {
            None
        }
    } else {
        None
    }
}

/// Whether `name` begins with `sampler_`.
fn starts_with_sampler_prefix(name: &str, len: usize) -> (r: bool)
    requires
        len == name@.len(),
    ensures
        r == has_sampler_prefix(name@),
{
    len >= SAMPLER_PREFIX_LEN && name.get_char(0) == 's' && name.get_char(1) == 'a'
        && name.get_char(2) == 'm' && name.get_char(3) == 'p' && name.get_char(4) == 'l'
        && name.get_char(5) == 'e' && name.get_char(6) == 'r' && name.get_char(7) == '_'
}

/// Parses a sampler binding's name into its parameters.
///
/// Succeeds exactly on names of the form `sampler_<filter><mipmap><address>`;
/// every other name is refused as malformed.
pub fn parse_sampler_name(name: &str) -> (r: Result<SamplerDesc, ResourceError>)
    ensures
        r == match spec_parse_sampler(name@) {
            Some(desc) => Ok::<SamplerDesc, ResourceError>(desc),
            None => Err(ResourceError::MalformedSamplerSpec),
        },
{
    let len: usize = name.unicode_len();
    if !starts_with_sampler_prefix(name, len) || len < 10 {
        return Err(ResourceError::MalformedSamplerSpec);
    }
    let filter = parse_filter(name.get_char(8));
    let mipmap = parse_mipmap(name.get_char(9));
    let address = parse_address(name, 10, len);
    match (filter, mipmap, address) {
        (Some(f), Some(m), Some(a)) => Ok(
            SamplerDesc { texel_filter: f, mipmap_mode: m, address_modes: a },
        ),
        _ => Err(ResourceError::MalformedSamplerSpec),
    }
}

} // verus!
