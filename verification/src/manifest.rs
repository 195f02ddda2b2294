//! The manifest of a module: its declared name and version.
//!
//! The manifest is the file `apex_manifest.pb` in the module's directory, a
//! message in the protocol buffer encoding. Such a message is a sequence of
//! fields. Each field starts with a tag, a variable-length integer that holds
//! the field's number (the tag divided by eight) and the encoding of its
//! value (the remainder). Field 1 is the module's name, a length-delimited
//! byte string. Field 2 is its version, a variable-length integer read as a
//! 64-bit two's complement number. Both are required here; where a field
//! occurs more than once, its last occurrence counts. All other fields are
//! skipped, whatever they hold.

use crate::varint::decode_varint;
use crate::varint::encode_varint;
use crate::varint::lemma_varint_digits_span;
use crate::varint::lemma_varint_round_trip;
use crate::varint::read_varint;
use crate::varint::VarintError;
use vstd::prelude::*;
use vstd::slice::slice_subrange;
use vstd::slice::slice_to_vec;

verus! {

/// The number of the field that holds the module's name.
pub const NAME_FIELD: u64 = 1;

/// The number of the field that holds the module's version.
pub const VERSION_FIELD: u64 = 2;

/// The largest field number that a tag can hold.
pub const MAX_FIELD_NUMBER: u64 = 0x1fff_ffff;

/// The value is a variable-length integer.
pub const WIRE_VARINT: u64 = 0;

/// The value is eight bytes long.
pub const WIRE_FIXED64: u64 = 1;

/// The value is a length, itself a variable-length integer, and that many bytes.
pub const WIRE_DELIMITED: u64 = 2;

/// The value is four bytes long.
pub const WIRE_FIXED32: u64 = 5;

/// Why a byte sequence is not a manifest.
#[derive(Clone, Copy, Debug, PartialEq, Eq, Structural)]
pub enum ManifestError {
    /// The input ends inside a field.
    Truncated,
    /// A variable-length integer takes more than ten bytes or 64 bits.
    VarintOverflow,
    /// A tag holds the field number zero or one above the largest.
    InvalidTag,
    /// A value is encoded in a way that is not supported: a group, or one of
    /// the two encodings that are not assigned.
    UnsupportedWireType,
    /// The name field does not hold a byte string.
    NameNotText,
    /// The name holds a zero byte, so it cannot be handed out as a
    /// null-terminated string.
    NameContainsNul,
    /// The version field does not hold an integer.
    VersionNotInteger,
    /// No field holds the name.
    MissingName,
    /// No field holds the version.
    MissingVersion,
}

/// What a manifest declares.
#[derive(Debug, PartialEq, Eq)]
pub struct ApexManifest {
    /// The module's name, without a terminator.
    pub name: Vec<u8>,
    /// The module's version.
    pub version: i64,
}

/// What a manifest declares, as a mathematical value.
pub struct ManifestView {
    /// The module's name, without a terminator.
    pub name: Seq<u8>,
    /// The module's version.
    pub version: i64,
}

impl View for ApexManifest {
    type V = ManifestView;

    open spec fn view(&self) -> ManifestView {
        ManifestView { name: self.name@, version: self.version }
    }
}

/// The two fields as far as a scan has found them.
pub struct Found {
    /// The content of the last name field, if there was one.
    pub name: Option<Seq<u8>>,
    /// The value of the last version field, if there was one.
    pub version: Option<i64>,
}

/// How a failure to read a variable-length integer is reported for a manifest.
pub open spec fn varint_failure(e: VarintError) -> ManifestError {
    match e {
        VarintError::Truncated => ManifestError::Truncated,
        VarintError::Overflow => ManifestError::VarintOverflow,
    }
}

/// The 64-bit two's complement number with the bits of `v`.
pub open spec fn as_signed(v: u64) -> i64 {
    if v <= i64::MAX {
        v as i64
    } else {
        (v - 0x1_0000_0000_0000_0000) as i64
    }
}

/// The bounds of the content of the length-delimited value at `pos`.
pub open spec fn delimited_at(s: Seq<u8>, pos: int) -> Result<(int, int), ManifestError> {
    match decode_varint(s, pos) {
        Err(e) => Err(varint_failure(e)),
        Ok((len, start)) => if len <= s.len() - start {
            Ok((start, start + len))
        } else {
            Err(ManifestError::Truncated)
        },
    }
}

/// The index after the value at `pos` that is encoded as `wire_type` says.
pub open spec fn value_end(s: Seq<u8>, pos: int, wire_type: u64) -> Result<int, ManifestError> {
    if wire_type == WIRE_VARINT {
        match decode_varint(s, pos) {
            Err(e) => Err(varint_failure(e)),
            Ok((_, end)) => Ok(end),
        }
    } else if wire_type == WIRE_FIXED64 {
        if 8 <= s.len() - pos {
            Ok(pos + 8)
        } else {
            Err(ManifestError::Truncated)
        }
    } else if wire_type == WIRE_DELIMITED {
        match delimited_at(s, pos) {
            Err(e) => Err(e),
            Ok((_, end)) => Ok(end),
        }
    } else if wire_type == WIRE_FIXED32 {
        if 4 <= s.len() - pos {
            Ok(pos + 4)
        } else {
            Err(ManifestError::Truncated)
        }
    } else {
        Err(ManifestError::UnsupportedWireType)
    }
}

/// The fields found by reading `s` from `pos` to its end, given those
/// found before `pos`, or the first error met on the way.
pub open spec fn scan_fields(s: Seq<u8>, pos: int, found: Found) -> Result<Found, ManifestError>
    decreases s.len() - pos,
    via scan_fields_decreases
{
    if pos >= s.len() {
        Ok(found)
    } else {
        match decode_varint(s, pos) {
            Err(e) => Err(varint_failure(e)),
            Ok((tag, at)) => {
                let number = tag / 8;
                let wire_type = tag % 8;
                if number == 0 || number > MAX_FIELD_NUMBER {
                    Err(ManifestError::InvalidTag)
                } else if number == NAME_FIELD {
                    if wire_type != WIRE_DELIMITED {
                        Err(ManifestError::NameNotText)
                    } else {
                        match delimited_at(s, at) {
                            Err(e) => Err(e),
                            Ok((start, end)) => if s.subrange(start, end).contains(0u8) {
                                Err(ManifestError::NameContainsNul)
                            } else {
                                scan_fields(
                                    s,
                                    end,
                                    Found { name: Some(s.subrange(start, end)), ..found },
                                )
                            },
                        }
                    }
                } else if number == VERSION_FIELD {
                    if wire_type != WIRE_VARINT {
                        Err(ManifestError::VersionNotInteger)
                    } else {
                        match decode_varint(s, at) {
                            Err(e) => Err(varint_failure(e)),
                            Ok((v, end)) => scan_fields(
                                s,
                                end,
                                Found { version: Some(as_signed(v)), ..found },
                            ),
                        }
                    }
                } else {
                    match value_end(s, at, wire_type) {
                        Err(e) => Err(e),
                        Ok(end) => scan_fields(s, end, found),
                    }
                }
            },
        }
    }
}

#[via_fn]
proof fn scan_fields_decreases(s: Seq<u8>, pos: int, found: Found) {
    lemma_varint_digits_span(s, pos, 0);
    if let Ok((_, at)) = decode_varint(s, pos) {
        lemma_varint_digits_span(s, at, 0);
    }
}

/// A scan never leaves a name that holds a zero byte, unless it started with
/// one.
pub proof fn lemma_scanned_name_is_text(s: Seq<u8>, pos: int, found: Found)
    requires
        found.name matches Some(name) ==> !name.contains(0u8),
    ensures
        scan_fields(s, pos, found) matches Ok(Found { name: Some(name), .. }) ==> !name.contains(
            0u8,
        ),
    decreases s.len() - pos,
{
    if pos < s.len() {
        lemma_varint_digits_span(s, pos, 0);
        if let Ok((tag, at)) = decode_varint(s, pos) {
            lemma_varint_digits_span(s, at, 0);
            let number = tag / 8;
            let wire_type = tag % 8;
            if number == 0 || number > MAX_FIELD_NUMBER {
            } else if number == NAME_FIELD {
                if wire_type == WIRE_DELIMITED {
                    if let Ok((start, end)) = delimited_at(s, at) {
                        if !s.subrange(start, end).contains(0u8) {
                            lemma_scanned_name_is_text(
                                s,
                                end,
                                Found { name: Some(s.subrange(start, end)), ..found },
                            );
                        }
                    }
                }
            } else if number == VERSION_FIELD {
                if wire_type == WIRE_VARINT {
                    if let Ok((v, end)) = decode_varint(s, at) {
                        lemma_scanned_name_is_text(
                            s,
                            end,
                            Found { version: Some(as_signed(v)), ..found },
                        );
                    }
                }
            } else {
                if let Ok(end) = value_end(s, at, wire_type) {
                    lemma_scanned_name_is_text(s, end, found);
                }
            }
        }
    }
}

/// What the manifest `s` declares, or why `s` is not a manifest.
pub open spec fn parse_manifest_spec(s: Seq<u8>) -> Result<ManifestView, ManifestError> {
    match scan_fields(s, 0, Found { name: None, version: None }) {
        Err(e) => Err(e),
        Ok(found) => match found.name {
            None => Err(ManifestError::MissingName),
            Some(name) => match found.version {
                None => Err(ManifestError::MissingVersion),
                Some(version) => Ok(ManifestView { name, version }),
            },
        },
    }
}

/// The 64-bit pattern of the two's complement number `v`.
pub open spec fn as_unsigned(v: i64) -> u64 {
    if v >= 0 {
        v as u64
    } else {
        (v + 0x1_0000_0000_0000_0000) as u64
    }
}

/// The name field of a manifest that declares `name`.
pub open spec fn encode_name(name: Seq<u8>) -> Seq<u8> {
    encode_varint(NAME_FIELD as nat * 8 + WIRE_DELIMITED as nat) + encode_varint(name.len())
        + name
}

/// The version field of a manifest that declares `version`.
pub open spec fn encode_version(version: i64) -> Seq<u8> {
    encode_varint(VERSION_FIELD as nat * 8 + WIRE_VARINT as nat) + encode_varint(
        as_unsigned(version) as nat,
    )
}

/// The shortest manifest that declares `manifest`: the name field, then the
/// version field.
pub open spec fn encode_manifest(manifest: ManifestView) -> Seq<u8> {
    encode_name(manifest.name) + encode_version(manifest.version)
}

/// Every name without a zero byte and every version can be declared: the
/// manifest made of the two fields is read back as that name and version.
pub proof fn lemma_manifest_round_trip(manifest: ManifestView)
    requires
        manifest.name.len() <= u64::MAX,
        !manifest.name.contains(0u8),
    ensures
        parse_manifest_spec(encode_manifest(manifest)) == Ok::<ManifestView, ManifestError>(
            manifest,
        ),
{
    let name = manifest.name;
    let s = encode_manifest(manifest);
    let nothing = Found { name: None, version: None };
    let name_tag = encode_varint(NAME_FIELD as nat * 8 + WIRE_DELIMITED as nat);
    let name_len = encode_varint(name.len());
    let version_tag = encode_varint(VERSION_FIELD as nat * 8 + WIRE_VARINT as nat);
    let version_bits = encode_varint(as_unsigned(manifest.version) as nat);
    let at_len = name_tag.len() as int;
    let at_name = at_len + name_len.len();
    let at_version = at_name + name.len();
    let at_bits = at_version + version_tag.len();

    assert(s =~= Seq::<u8>::empty() + name_tag + (name_len + name + version_tag + version_bits));
    lemma_varint_round_trip(Seq::empty(), 10, name_len + name + version_tag + version_bits);
    assert(decode_varint(s, 0) == Ok::<(u64, int), VarintError>((10, at_len)));

    assert(s =~= name_tag + name_len + (name + version_tag + version_bits));
    lemma_varint_round_trip(name_tag, name.len() as u64, name + version_tag + version_bits);
    assert(delimited_at(s, at_len) == Ok::<(int, int), ManifestError>((at_name, at_version)));
    assert(s.subrange(at_name, at_version) =~= name);

    assert(s =~= (name_tag + name_len + name) + version_tag + version_bits);
    lemma_varint_round_trip(name_tag + name_len + name, 16, version_bits);
    assert(decode_varint(s, at_version) == Ok::<(u64, int), VarintError>((16, at_bits)));

    assert(s =~= (name_tag + name_len + name + version_tag) + version_bits + Seq::<u8>::empty());
    lemma_varint_round_trip(
        name_tag + name_len + name + version_tag,
        as_unsigned(manifest.version),
        Seq::empty(),
    );
    assert(decode_varint(s, at_bits) == Ok::<(u64, int), VarintError>(
        (as_unsigned(manifest.version), s.len() as int),
    ));
    assert(as_signed(as_unsigned(manifest.version)) == manifest.version);

    let named = Found { name: Some(name), version: None };
    let both = Found { name: Some(name), version: Some(manifest.version) };
    assert(scan_fields(s, s.len() as int, both) == Ok::<Found, ManifestError>(both));
    assert(scan_fields(s, at_version, named) == Ok::<Found, ManifestError>(both));
    assert(scan_fields(s, 0, nothing) == Ok::<Found, ManifestError>(both));
}

/// The name that a manifest declares holds no zero byte.
pub proof fn lemma_parsed_name_is_text(bytes: Seq<u8>)
    ensures
        parse_manifest_spec(bytes) matches Ok(manifest) ==> !manifest.name.contains(0u8),
{
    lemma_scanned_name_is_text(bytes, 0, Found { name: None, version: None });
}

/// Reinterprets the bits of `v` as a 64-bit two's complement number.
pub fn to_signed(v: u64) -> (r: i64)
    ensures
        r == as_signed(v),
{
    if v <= 0x7fff_ffff_ffff_ffff {
        v as i64
    } else {
        let low: u64 = v - 0x8000_0000_0000_0000;
        (low as i64) + i64::MIN
    }
}

fn varint_error(e: VarintError) -> (r: ManifestError)
    ensures
        r == varint_failure(e),
{
    match e {
        VarintError::Truncated => ManifestError::Truncated,
        VarintError::Overflow => ManifestError::VarintOverflow,
    }
}

/// Reads the length-delimited value that starts at `pos`.
///
/// Returns the bounds of its content within `bytes`.
pub fn read_delimited(bytes: &[u8], pos: usize) -> (r: Result<(usize, usize), ManifestError>)
    ensures
        match r {
            Ok((start, end)) => delimited_at(bytes@, pos as int) == Ok::<
                (int, int),
                ManifestError,
            >((start as int, end as int)) && pos < start <= end <= bytes.len(),
            Err(e) => delimited_at(bytes@, pos as int) == Err::<(int, int), ManifestError>(e),
        },
{
    match read_varint(bytes, pos) {
        Err(e) => Err(varint_error(e)),
        Ok((len, start)) => {
            let room: usize = bytes.len() - start;
            if len <= room as u64 {
                Ok((start, start + len as usize))
            } else {
                Err(ManifestError::Truncated)
            }
        },
    }
}

/// Finds the end of the value that starts at `pos` and is encoded as
/// `wire_type` says.
pub fn skip_value(bytes: &[u8], pos: usize, wire_type: u64) -> (r: Result<usize, ManifestError>)
    ensures
        match r {
            Ok(end) => value_end(bytes@, pos as int, wire_type) == Ok::<int, ManifestError>(
                end as int,
            ) && pos <= end <= bytes.len(),
            Err(e) => value_end(bytes@, pos as int, wire_type) == Err::<int, ManifestError>(e),
        },
{
    let room: usize = if pos <= bytes.len() {
        bytes.len() - pos
    } else {
        0
    };
    if wire_type == WIRE_VARINT {
        match read_varint(bytes, pos) {
            Err(e) => Err(varint_error(e)),
            Ok((_, end)) => Ok(end),
        }
    } else if wire_type == WIRE_FIXED64 {
        if 8 <= room {
            Ok(pos + 8)
        } else {
            Err(ManifestError::Truncated)
        }
    } else if wire_type == WIRE_DELIMITED {
        match read_delimited(bytes, pos) {
            Err(e) => Err(e),
            Ok((_, end)) => Ok(end),
        }
    } else if wire_type == WIRE_FIXED32 {
        if 4 <= room {
            Ok(pos + 4)
        } else {
            Err(ManifestError::Truncated)
        }
    } else {
        Err(ManifestError::UnsupportedWireType)
    }
}

/// Tells whether a zero byte lies in `bytes` from `start` up to `end`.
fn holds_nul(bytes: &[u8], start: usize, end: usize) -> (r: bool)
    requires
        start <= end <= bytes.len(),
    ensures
        r == bytes@.subrange(start as int, end as int).contains(0u8),
{
    let ghost part = bytes@.subrange(start as int, end as int);
    let mut i: usize = start;
    while i < end
        invariant
            start <= i <= end <= bytes.len(),
            part == bytes@.subrange(start as int, end as int),
            forall|j: int| 0 <= j < i - start ==> part[j] != 0u8,
        decreases end - i,
    {
        if bytes[i] == 0 {
            assert(part[i - start] == 0u8);
            return true;
        }
        i = i + 1;
    }
    false
}

/// Reads a manifest.
///
/// Returns the declared name and version, or the first reason met, from the
/// front, why the bytes are not a manifest. A manifest without a name is
/// reported before one without a version.
pub fn parse_manifest(bytes: &[u8]) -> (r: Result<ApexManifest, ManifestError>)
    ensures
        match r {
            Ok(m) => parse_manifest_spec(bytes@) == Ok::<ManifestView, ManifestError>(m@),
            Err(e) => parse_manifest_spec(bytes@) == Err::<ManifestView, ManifestError>(e),
        },
{
    let mut name: Option<Vec<u8>> = None;
    let mut version: Option<i64> = None;
    let mut pos: usize = 0;
    let ghost nothing = Found { name: None, version: None };
    while pos < bytes.len()
        invariant
            pos <= bytes.len(),
            nothing == (Found { name: None, version: None }),
            scan_fields(bytes@, 0, nothing) == scan_fields(
                bytes@,
                pos as int,
                Found {
                    name: match name {
                        Some(n) => Some(n@),
                        None => None,
                    },
                    version,
                },
            ),
        decreases bytes.len() - pos,
    {
        let (tag, at) = match read_varint(bytes, pos) {
            Err(e) => {
                return Err(varint_error(e));
            },
            Ok(pair) => pair,
        };
        let number: u64 = tag / 8;
        let wire_type: u64 = tag % 8;
        if number == 0 || number > MAX_FIELD_NUMBER {
            return Err(ManifestError::InvalidTag);
        } else if number == NAME_FIELD {
            if wire_type != WIRE_DELIMITED {
                return Err(ManifestError::NameNotText);
            }
            match read_delimited(bytes, at) {
                Err(e) => {
                    return Err(e);
                },
                Ok((start, end)) => {
                    if holds_nul(bytes, start, end) {
                        return Err(ManifestError::NameContainsNul);
                    }
                    name = Some(slice_to_vec(slice_subrange(bytes, start, end)));
                    pos = end;
                },
            }
        } else if number == VERSION_FIELD {
            if wire_type != WIRE_VARINT {
                return Err(ManifestError::VersionNotInteger);
            }
            match read_varint(bytes, at) {
                Err(e) => {
                    return Err(varint_error(e));
                },
                Ok((v, end)) => {
                    version = Some(to_signed(v));
                    pos = end;
                },
            }
        } else {
            match skip_value(bytes, at, wire_type) {
                Err(e) => {
                    return Err(e);
                },
                Ok(end) => {
                    pos = end;
                },
            }
        }
    }
    match name {
        None => Err(ManifestError::MissingName),
        Some(name) => match version {
            None => Err(ManifestError::MissingVersion),
            Some(version) => Ok(ApexManifest { name, version }),
        },
    }
}

} // verus!
