//! Channel descriptors: how the bits of a raw sample map to a signed value.
//!
//! A descriptor is written `[endian:][sign]bits/storage[Xrepeat][>>shift]`,
//! for instance `le:s12/16>>4`. `described` says which descriptor a text
//! holds, if any; `ScanType::from_str` computes it.

use vstd::prelude::*;
use vstd::arithmetic::power2::{pow2, lemma_pow2_strictly_increases};
use vstd::arithmetic::div_mod::{lemma_fundamental_div_mod_converse, lemma_small_mod};
use crate::decode::{
    centered,
    centered_value,
    lemma_centered_of_pattern,
    lemma_centered_range,
    lemma_extremes,
    lemma_half_range,
    lemma_sign_extended_of_pattern,
    lemma_sign_extended_range,
    mask_extend,
    native_cast,
    offset_pattern,
    power_of_two,
    representable,
    sign_extended,
    storage_limit,
    twos_complement,
};
use crate::text::{
    chars_of,
    decimal_string,
    decimal_text,
    decimal_value,
    digits_end,
    lemma_number_text,
    parse_unsigned,
    scan_digits,
    unsigned_number,
};

verus! {

/// Byte order of a stored sample.
#[derive(Debug, PartialEq, Eq, Structural, Clone, Copy)]
pub enum Endian {
    Big,
    Little,
}

/// Whether a sample is a signed quantity.
#[derive(Debug, PartialEq, Eq, Structural, Clone, Copy)]
pub enum Signed {
    Signed,
    Unsigned,
}

/// The way a raw sample is turned into a signed value. It is chosen once,
/// when the descriptor is read, and not again for each sample.
#[derive(Debug, PartialEq, Eq, Structural, Clone, Copy)]
pub enum Conversion {
    /// Signed, with a width that a machine integer has: a narrowing cast
    /// followed by a widening one.
    Native,
    /// Signed, with any other width: the sign bit is found and extended by
    /// hand.
    MaskExtend,
    /// Signed, but written out as the unsigned reading of the storage word:
    /// the word is read back as signed.
    StorageCast,
    /// Unsigned: the value is taken relative to the middle of its range.
    Centered,
}

/// A descriptor that could not be read. It carries the text as it was given.
#[derive(Debug)]
pub enum DescriptorError {
    Malformed(String),
}

/// A sample that could not be decoded.
#[derive(Debug, PartialEq, Eq, Structural, Clone, Copy)]
pub enum DecodeError {
    /// The text is no non-negative decimal number that the storage can hold.
    NumberFormat,
}

/// What a descriptor says, as plain numbers.
pub struct ScanDescriptor {
    pub endianness: Endian,
    pub sign: Signed,
    /// Number of bits that carry the value, from 1 to 64.
    pub bits: nat,
    /// Number of bits a sample takes up in storage: 8, 16, 32 or 64.
    pub storage: nat,
    /// How often the sample is repeated; 0 where the descriptor names none.
    pub repeat: nat,
    /// How far the stored word is shifted right before use.
    pub shift: nat,
    /// Whether signed samples are written out as unsigned storage words.
    pub fix_sign: bool,
}

impl ScanDescriptor {
    /// The widths fit together: at least one bit, no more bits than the
    /// storage has, and a storage of 8, 16, 32 or 64 bits.
    pub open spec fn valid(self) -> bool {
        &&& 1 <= self.bits <= self.storage
        &&& (self.storage == 8 || self.storage == 16 || self.storage == 32 || self.storage == 64)
    }

    /// The conversion that belongs to the descriptor.
    pub open spec fn conversion(self) -> Conversion {
        match self.sign {
            Signed::Unsigned => Conversion::Centered,
            Signed::Signed => if self.fix_sign {
                Conversion::StorageCast
            } else if self.bits == 8 || self.bits == 16 || self.bits == 32 || self.bits == 64 {
                Conversion::Native
            } else {
                Conversion::MaskExtend
            },
        }
    }
}

/// The parts that one occurrence of the descriptor pattern captured. A number
/// that is missing, or too large for eight bits, is `None`.
pub struct Fields {
    pub endian: Option<Endian>,
    pub sign: Option<Signed>,
    pub bits: Option<u8>,
    pub storage: Option<u8>,
    pub repeat: Option<u8>,
    pub shift: Option<u8>,
}

/// Byte order used where a descriptor names none.
pub const DEFAULT_ENDIANNESS: Endian = Endian::Little;

/// Signedness used where a descriptor names none.
pub const DEFAULT_SIGNED: Signed = Signed::Unsigned;

/// Repeat count used where a descriptor names none, or none that fits.
pub const DEFAULT_REPEAT: u8 = 0u8;

/// Right shift used where a descriptor names none, or none that fits.
pub const DEFAULT_RSHIFT: u8 = 1u8;

/// The value of a run of digits where it fits in eight bits.
pub open spec fn small_number(digits: Seq<char>) -> Option<u8> {
    if decimal_value(digits) <= 255 {
        Some(decimal_value(digits) as u8)
    } else {
        None
    }
}

/// The byte order named at `at`, if `be:` or `le:` stands there.
pub open spec fn endian_at(s: Seq<char>, at: int) -> Option<Endian> {
    if 0 <= at && at + 3 <= s.len() && s[at + 1] == 'e' && s[at + 2] == ':' {
        if s[at] == 'b' {
            Some(Endian::Big)
        } else if s[at] == 'l' {
            Some(Endian::Little)
        } else {
            None
        }
    } else {
        None
    }
}

/// The signedness named at `at`, if `s` or `u` stands there.
pub open spec fn sign_at(s: Seq<char>, at: int) -> Option<Signed> {
    if 0 <= at < s.len() && s[at] == 's' {
        Some(Signed::Signed)
    } else if 0 <= at < s.len() && s[at] == 'u' {
        Some(Signed::Unsigned)
    } else {
        None
    }
}

/// Whether the mark of a repeat count, `X`, stands at `at`.
pub open spec fn repeat_mark_at(s: Seq<char>, at: int) -> bool {
    0 <= at < s.len() && s[at] == 'X'
}

/// Whether the mark of a shift, `>>`, stands at `at`.
pub open spec fn shift_mark_at(s: Seq<char>, at: int) -> bool {
    0 <= at && at + 2 <= s.len() && s[at] == '>' && s[at + 1] == '>'
}

/// The number that starts at `from`, where a digit stands there: the index
/// behind its digits and its value.
pub open spec fn number_from(s: Seq<char>, from: int) -> Option<(int, Option<u8>)> {
    let end = digits_end(s, from);
    if from < end {
        Some((end, small_number(s.subrange(from, end))))
    } else {
        None
    }
}

/// The descriptor pattern read at `at`: an optional byte order with its
/// colon, an optional sign letter, the bits, a slash, the storage, and then,
/// each only where it is complete, `X` with a repeat count and `>>` with a
/// shift. The result is `None` where the bits, the slash or the storage is
/// missing.
pub open spec fn fields_at(s: Seq<char>, at: int) -> Option<Fields> {
    let endian = endian_at(s, at);
    let sign_from = if endian is Some {
        at + 3
    } else {
        at
    };
    let sign = sign_at(s, sign_from);
    let bits_from = if sign is Some {
        sign_from + 1
    } else {
        sign_from
    };
    let bits_end = digits_end(s, bits_from);
    let storage_from = bits_end + 1;
    let storage_end = digits_end(s, storage_from);
    if 0 <= at && bits_from < bits_end && bits_end < s.len() && s[bits_end] == '/' && storage_from
        < storage_end {
        let repeat = if repeat_mark_at(s, storage_end) {
            number_from(s, storage_end + 1)
        } else {
            None
        };
        let shift_from = match repeat {
            Some((end, _)) => end,
            None => storage_end,
        };
        let shift = if shift_mark_at(s, shift_from) {
            number_from(s, shift_from + 2)
        } else {
            None
        };
        Some(
            Fields {
                endian,
                sign,
                bits: small_number(s.subrange(bits_from, bits_end)),
                storage: small_number(s.subrange(storage_from, storage_end)),
                repeat: match repeat {
                    Some((_, value)) => value,
                    None => None,
                },
                shift: match shift {
                    Some((_, value)) => value,
                    None => None,
                },
            },
        )
    } else {
        None
    }
}

/// The first occurrence of the descriptor pattern at or after `from`. What
/// stands before and behind it is passed over.
pub open spec fn first_fields(s: Seq<char>, from: int) -> Option<Fields>
    decreases s.len() - from,
{
    if from < 0 || from >= s.len() {
        None
    } else if fields_at(s, from) is Some {
        fields_at(s, from)
    } else {
        first_fields(s, from + 1)
    }
}

/// The descriptor that captured fields stand for: `None` where the bits or
/// the storage do not fit in eight bits or the widths do not fit together.
/// Byte order, sign, repeat and shift fall back on their defaults.
pub open spec fn descriptor_of(fields: Fields, fix_sign: bool) -> Option<ScanDescriptor> {
    if fields.bits is Some && fields.storage is Some {
        let d = ScanDescriptor {
            endianness: if fields.endian is Some {
                fields.endian->0
            } else {
                DEFAULT_ENDIANNESS
            },
            sign: if fields.sign is Some {
                fields.sign->0
            } else {
                DEFAULT_SIGNED
            },
            bits: fields.bits->0 as nat,
            storage: fields.storage->0 as nat,
            repeat: if fields.repeat is Some {
                fields.repeat->0 as nat
            } else {
                DEFAULT_REPEAT as nat
            },
            shift: if fields.shift is Some {
                fields.shift->0 as nat
            } else {
                DEFAULT_RSHIFT as nat
            },
            fix_sign,
        };
        if d.valid() {
            Some(d)
        } else {
            None
        }
    } else {
        None
    }
}

/// The descriptor that the text `s` holds, or `None` where it holds none.
pub open spec fn described(s: Seq<char>, fix_sign: bool) -> Option<ScanDescriptor> {
    match first_fields(s, 0) {
        Some(fields) => descriptor_of(fields, fix_sign),
        None => None,
    }
}

/// Narrows a scanned number to eight bits.
fn narrow(value: Option<u64>) -> (r: Option<u8>)
    requires
        value is Some ==> value->0 <= 255,
    ensures
        r is Some <==> value is Some,
        r is Some ==> r->0 == value->0,
{
    match value {
        Some(v) => Some(v as u8),
        None => None,
    }
}

/// Reads the number that starts at `from`: see `number_from`.
fn read_number(text: &[char], from: usize) -> (r: Option<(usize, Option<u8>)>)
    requires
        from <= text@.len(),
    ensures
        match (r, number_from(text@, from as int)) {
            (Some((end, value)), Some((spec_end, spec_value))) => {
                &&& end == spec_end
                &&& value == spec_value
                &&& from < end <= text@.len()
            },
            (None, None) => true,
            _ => false,
        },
{
    let (end, value) = scan_digits(text, from, 255);
    if from < end {
        Some((end, narrow(value)))
    } else {
        None
    }
}

/// Reads the descriptor pattern at `at`: see `fields_at`.
pub fn match_at(text: &[char], at: usize) -> (r: Option<Fields>)
    requires
        at <= text@.len(),
    ensures
        r == fields_at(text@, at as int),
{
    let n: usize = text.len();
    let endian = if n - at >= 3 && text[at + 1] == 'e' && text[at + 2] == ':' {
        if text[at] == 'b' {
            Some(Endian::Big)
        } else if text[at] == 'l' {
            Some(Endian::Little)
        } else {
            None
        }
    } else {
        None
    };
    let sign_from: usize = if endian.is_some() {
        at + 3
    } else {
        at
    };
    let sign = if sign_from < n && text[sign_from] == 's' {
        Some(Signed::Signed)
    } else if sign_from < n && text[sign_from] == 'u' {
        Some(Signed::Unsigned)
    } else {
        None
    };
    let bits_from: usize = if sign.is_some() {
        sign_from + 1
    } else {
        sign_from
    };
    let (bits_end, bits) = scan_digits(text, bits_from, 255);
    if bits_end == bits_from || bits_end >= n || text[bits_end] != '/' {
        return None;
    }
    let storage_from: usize = bits_end + 1;
    let (storage_end, storage) = scan_digits(text, storage_from, 255);
    if storage_end == storage_from {
        return None;
    }
    let counted = if storage_end < n && text[storage_end] == 'X' {
        read_number(text, storage_end + 1)
    } else {
        None
    };
    let (shift_from, repeat) = match counted {
        Some((end, value)) => (end, value),
        None => (storage_end, None),
    };
    let shifted = if n - shift_from >= 2 && text[shift_from] == '>' && text[shift_from + 1] == '>' {
        read_number(text, shift_from + 2)
    } else {
        None
    };
    let shift = match shifted {
        Some((_, value)) => value,
        None => None,
    };
    Some(Fields { endian, sign, bits: narrow(bits), storage: narrow(storage), repeat, shift })
}

/// Finds the first occurrence of the descriptor pattern: see `first_fields`.
pub fn first_match(text: &[char]) -> (r: Option<Fields>)
    ensures
        r == first_fields(text@, 0),
{
    let mut at: usize = 0;
    while at < text.len()
        invariant
            at <= text@.len(),
            first_fields(text@, 0) == first_fields(text@, at as int),
        decreases text@.len() - at,
    {
        let found = match_at(text, at);
        if found.is_some() {
            return found;
        }
        at = at + 1;
    }
    None
}

/// The value that the raw number `raw` stands for under `d`. An unsigned
/// sample is centered on the middle of its range. A signed one is
/// sign-extended from the width of its value, or, where the sign fix is on,
/// read as the storage word that it is, which it then has to fit.
pub open spec fn decoded(d: ScanDescriptor, raw: nat) -> Option<int> {
    match d.sign {
        Signed::Unsigned => Some(centered_value(raw, d.bits)),
        Signed::Signed => if !d.fix_sign {
            Some(sign_extended(raw, d.bits))
        } else if raw < pow2(d.storage) {
            Some(sign_extended(raw, d.storage))
        } else {
            None
        },
    }
}

/// The value that the sample text `text` stands for under `d`: `None` where
/// the text is no non-negative decimal number of at most 64 bits, or one that
/// `decoded` refuses.
pub open spec fn converted(d: ScanDescriptor, text: Seq<char>) -> Option<int> {
    match unsigned_number(text) {
        Some(raw) => if raw <= u64::MAX {
            decoded(d, raw)
        } else {
            None
        },
        None => None,
    }
}

/// The raw number that stands for `value` under `d`, for a value that the
/// bits of `d` can hold.
pub open spec fn encoded(d: ScanDescriptor, value: int) -> Option<nat> {
    if !representable(value, d.bits) {
        None
    } else {
        Some(
            match d.sign {
                Signed::Unsigned => offset_pattern(value, d.bits),
                Signed::Signed => if d.fix_sign {
                    twos_complement(value, d.storage)
                } else {
                    twos_complement(value, d.bits)
                },
            },
        )
    }
}

/// What a conversion of `text` under `d` may return: the value where there
/// is one, the number format error where there is none.
pub open spec fn converts_to(
    d: ScanDescriptor,
    text: Seq<char>,
    r: Result<i64, DecodeError>,
) -> bool {
    match r {
        Ok(value) => converted(d, text) == Some(value as int),
        Err(e) => e == DecodeError::NumberFormat && converted(d, text) is None,
    }
}

/// The byte order that the word `s` names: `be` is big, anything else little.
pub open spec fn endian_named(s: Seq<char>) -> Endian {
    if s.len() == 2 && s[0] == 'b' && s[1] == 'e' {
        Endian::Big
    } else if s.len() == 2 && s[0] == 'l' && s[1] == 'e' {
        Endian::Little
    } else {
        DEFAULT_ENDIANNESS
    }
}

/// The signedness that the word `s` names: `s` is signed, anything else
/// unsigned.
pub open spec fn signed_named(s: Seq<char>) -> Signed {
    if s.len() == 1 && s[0] == 's' {
        Signed::Signed
    } else if s.len() == 1 && s[0] == 'u' {
        Signed::Unsigned
    } else {
        DEFAULT_SIGNED
    }
}

impl Endian {
    /// Reads a byte order from its name, `be` or `le`; any other word gives
    /// the default.
    pub fn from_str(s: &str) -> (e: Endian)
        ensures
            e == endian_named(s@),
    {
        let word = chars_of(s);
        if word.len() == 2 && word[0] == 'b' && word[1] == 'e' {
            Endian::Big
        } else if word.len() == 2 && word[0] == 'l' && word[1] == 'e' {
            Endian::Little
        } else {
            DEFAULT_ENDIANNESS
        }
    }
}

impl Signed {
    /// Reads a signedness from its name, `s` or `u`; any other word gives
    /// the default.
    pub fn from_str(s: &str) -> (e: Signed)
        ensures
            e == signed_named(s@),
    {
        let word = chars_of(s);
        if word.len() == 1 && word[0] == 's' {
            Signed::Signed
        } else if word.len() == 1 && word[0] == 'u' {
            Signed::Unsigned
        } else {
            DEFAULT_SIGNED
        }
    }
}

/// A channel descriptor together with the conversion chosen for it.
#[derive(Debug, Clone, Copy)]
pub struct ScanType {
    endianness: Endian,
    sign: Signed,
    bits: u8,
    storagebits: u8,
    repeat: u8,
    rshift: u8,
    conversion: Conversion,
    fix_sign: bool,
}

impl View for ScanType {
    type V = ScanDescriptor;

    closed spec fn view(&self) -> ScanDescriptor {
        ScanDescriptor {
            endianness: self.endianness,
            sign: self.sign,
            bits: self.bits as nat,
            storage: self.storagebits as nat,
            repeat: self.repeat as nat,
            shift: self.rshift as nat,
            fix_sign: self.fix_sign,
        }
    }
}

impl ScanType {
    /// Every descriptor has widths that fit together and carries the
    /// conversion that belongs to it.
    #[verifier::type_invariant]
    spec fn well_formed(self) -> bool {
        &&& self@.valid()
        &&& self.conversion == self@.conversion()
    }

    /// Builds the descriptor that captured fields stand for.
    fn from_fields(fields: Fields, fix_sign: bool) -> (r: Option<ScanType>)
        ensures
            match descriptor_of(fields, fix_sign) {
                Some(d) => r is Some && r->0@ == d,
                None => r is None,
            },
    {
        let (bits, storagebits) = match (fields.bits, fields.storage) {
            (Some(bits), Some(storagebits)) => (bits, storagebits),
            _ => {
                return None;
            },
        };
        if bits < 1 || bits > storagebits {
            return None;
        }
        if storagebits != 8 && storagebits != 16 && storagebits != 32 && storagebits != 64 {
            return None;
        }
        let sign = match fields.sign {
            Some(sign) => sign,
            None => DEFAULT_SIGNED,
        };
        let conversion = match sign {
            Signed::Unsigned => Conversion::Centered,
            Signed::Signed => if fix_sign {
                Conversion::StorageCast
            } else if bits == 8 || bits == 16 || bits == 32 || bits == 64 {
                Conversion::Native
            } else {
                Conversion::MaskExtend
            },
        };
        Some(
            ScanType {
                endianness: match fields.endian {
                    Some(endian) => endian,
                    None => DEFAULT_ENDIANNESS,
                },
                sign,
                bits,
                storagebits,
                repeat: match fields.repeat {
                    Some(repeat) => repeat,
                    None => DEFAULT_REPEAT,
                },
                rshift: match fields.shift {
                    Some(shift) => shift,
                    None => DEFAULT_RSHIFT,
                },
                conversion,
                fix_sign,
            },
        )
    }

    /// Reads a descriptor from a text that holds one.
    ///
    /// The first occurrence of the pattern
    /// `[endian:][sign]bits/storage[Xrepeat][>>shift]` counts; what stands
    /// before and behind it, such as the line end of a file, is passed over.
    /// The text is refused as malformed where it holds no occurrence, or one
    /// whose widths do not fit together.
    pub fn from_str(contents: &str, fix_sign: bool) -> (r: Result<ScanType, DescriptorError>)
        ensures
            match r {
                Ok(scan) => described(contents@, fix_sign) == Some(scan@),
                Err(DescriptorError::Malformed(text)) => {
                    &&& described(contents@, fix_sign) is None
                    &&& text@ == contents@
                },
            },
    {
        let text = chars_of(contents);
        let scan = match first_match(text.as_slice()) {
            Some(fields) => ScanType::from_fields(fields, fix_sign),
            None => None,
        };
        match scan {
            Some(scan) => Ok(scan),
            None => Err(DescriptorError::Malformed(contents.to_owned())),
        }
    }

    /// Decodes a raw number.
    ///
    /// The only numbers refused are those that, with the sign fix on, do not
    /// fit in the storage of a signed sample.
    pub fn decode(&self, raw: u64) -> (r: Result<i64, DecodeError>)
        ensures
            match r {
                Ok(value) => decoded(self@, raw as nat) == Some(value as int),
                Err(e) => e == DecodeError::NumberFormat && decoded(self@, raw as nat) is None,
            },
    {
        proof {
            use_type_invariant(self);
            lemma_half_range(self.bits as nat);
            lemma_half_range(self.storagebits as nat);
        }
        match self.conversion {
            Conversion::Centered => Ok(centered(raw, self.bits)),
            Conversion::Native => Ok(native_cast(raw, self.bits)),
            Conversion::MaskExtend => Ok(mask_extend(raw, self.bits)),
            Conversion::StorageCast => {
                if raw > storage_limit(self.storagebits) {
                    Err(DecodeError::NumberFormat)
                } else {
                    Ok(native_cast(raw, self.storagebits))
                }
            },
        }
    }

    /// Decodes a sample given as characters: see `convert`.
    pub fn convert_chars(&self, num: &[char]) -> (r: Result<i64, DecodeError>)
        ensures
            converts_to(self@, num@, r),
    {
        match parse_unsigned(num, u64::MAX) {
            Some(raw) => self.decode(raw),
            None => Err(DecodeError::NumberFormat),
        }
    }

    /// Converts the text of a sample to a signed value.
    ///
    /// The text has to be a non-negative decimal number, with nothing around
    /// it, that fits in 64 bits and, with the sign fix on, in the storage of
    /// a signed sample. Any other text gives the number format error.
    pub fn convert(&self, num: &str) -> (r: Result<i64, DecodeError>)
        ensures
            converts_to(self@, num@, r),
    {
        let text = chars_of(num);
        self.convert_chars(text.as_slice())
    }

    /// Returns the raw number that decodes to `value`, where the bits of the
    /// descriptor can hold `value`.
    pub fn encode(&self, value: i64) -> (r: Option<u64>)
        ensures
            match r {
                Some(raw) => encoded(self@, value as int) == Some(raw as nat),
                None => encoded(self@, value as int) is None,
            },
    {
        proof {
            use_type_invariant(self);
            lemma_half_range(self.bits as nat);
            lemma_half_range(self.storagebits as nat);
        }
        let half: u64 = power_of_two(self.bits - 1);
        if (value as i128) < -(half as i128) || (value as i128) >= (half as i128) {
            return None;
        }
        match self.sign {
            Signed::Unsigned => Some((value as i128 + half as i128) as u64),
            Signed::Signed => {
                let width: u8 = if self.fix_sign {
                    self.storagebits
                } else {
                    self.bits
                };
                proof {
                    lemma_half_range(width as nat);
                    if self.bits < width {
                        lemma_pow2_strictly_increases((self.bits - 1) as nat, (width - 1) as nat);
                    }
                    let m = pow2(width as nat) as int;
                    if value >= 0 {
                        lemma_small_mod(value as nat, m as nat);
                    } else {
                        lemma_fundamental_div_mod_converse(value as int, m, -1, value + m);
                    }
                }
                if value >= 0 {
                    Some(value as u64)
                } else {
                    let wide_half: u64 = power_of_two(width - 1);
                    Some((value as i128 + 2 * (wide_half as i128)) as u64)
                }
            },
        }
    }

    /// Returns the text of the raw number that is converted to `value`,
    /// where the bits of the descriptor can hold `value`.
    pub fn encode_text(&self, value: i64) -> (r: Option<String>)
        ensures
            match r {
                Some(text) => encoded(self@, value as int) is Some && text@ == decimal_text(
                    encoded(self@, value as int)->0,
                ),
                None => encoded(self@, value as int) is None,
            },
    {
        match self.encode(value) {
            Some(raw) => Some(decimal_string(raw)),
            None => None,
        }
    }

    /// Returns the byte order.
    pub fn endianness(&self) -> (e: Endian)
        ensures
            e == self@.endianness,
    {
        self.endianness
    }

    /// Returns the signedness.
    pub fn sign(&self) -> (s: Signed)
        ensures
            s == self@.sign,
    {
        self.sign
    }

    /// Returns the number of bits that carry the value.
    pub fn bits(&self) -> (n: u8)
        ensures
            n == self@.bits,
            self@.valid(),
    {
        proof {
            use_type_invariant(self);
        }
        self.bits
    }

    /// Returns the number of bits that a sample takes up in storage.
    pub fn storagebits(&self) -> (n: u8)
        ensures
            n == self@.storage,
            self@.valid(),
    {
        proof {
            use_type_invariant(self);
        }
        self.storagebits
    }

    /// Returns the repeat count.
    pub fn repeat(&self) -> (n: u8)
        ensures
            n == self@.repeat,
    {
        self.repeat
    }

    /// Returns the right shift.
    pub fn rshift(&self) -> (n: u8)
        ensures
            n == self@.shift,
    {
        self.rshift
    }

    /// Tells whether the sign fix is on.
    pub fn fix_sign(&self) -> (b: bool)
        ensures
            b == self@.fix_sign,
    {
        self.fix_sign
    }

    /// Returns the conversion chosen for the descriptor.
    pub fn conversion(&self) -> (c: Conversion)
        ensures
            c == self@.conversion(),
    {
        proof {
            use_type_invariant(self);
        }
        self.conversion
    }
}

/// A descriptor that a text holds has widths that fit together.
pub proof fn lemma_described_valid(s: Seq<char>, fix_sign: bool)
    ensures
        described(s, fix_sign) is Some ==> described(s, fix_sign)->0.valid(),
        described(s, fix_sign) is Some ==> described(s, fix_sign)->0.fix_sign == fix_sign,
{
}

/// Every decoded value fits in 64 bits and in the bits of the descriptor
/// (in its storage, where the sign fix is on).
pub proof fn lemma_decoded_range(d: ScanDescriptor, raw: nat)
    requires
        d.valid(),
        decoded(d, raw) is Some,
    ensures
        -0x8000_0000_0000_0000 <= decoded(d, raw)->0 < 0x8000_0000_0000_0000,
        representable(
            decoded(d, raw)->0,
            if d.sign == Signed::Signed && d.fix_sign {
                d.storage
            } else {
                d.bits
            },
        ),
{
    lemma_centered_range(raw, d.bits);
    lemma_sign_extended_range(raw, d.bits);
    lemma_sign_extended_range(raw, d.storage);
}

/// Decoding is a function of the descriptor and the text: two conversions of
/// one text under one descriptor give the same result.
pub proof fn lemma_convert_deterministic(
    d: ScanDescriptor,
    text: Seq<char>,
    first: Result<i64, DecodeError>,
    second: Result<i64, DecodeError>,
)
    requires
        converts_to(d, text, first),
        converts_to(d, text, second),
    ensures
        first == second,
{
}

/// For a signed descriptor of width 8, 16, 32 or 64, the largest positive
/// pattern decodes to a positive value and the pattern of all ones to -1.
/// With the sign fix on this holds where the value fills its storage.
pub proof fn lemma_signed_extremes(d: ScanDescriptor)
    requires
        d.valid(),
        d.sign == Signed::Signed,
        d.bits == 8 || d.bits == 16 || d.bits == 32 || d.bits == 64,
        d.fix_sign ==> d.bits == d.storage,
    ensures
        decoded(d, (pow2((d.bits - 1) as nat) - 1) as nat) == Some(pow2((d.bits - 1) as nat) - 1),
        pow2((d.bits - 1) as nat) - 1 > 0,
        decoded(d, (pow2(d.bits) - 1) as nat) == Some(-1int),
{
    lemma_extremes(d.bits);
    lemma_half_range(d.bits);
}

/// Round trip: a value that the bits of a descriptor can hold has a raw
/// number, and that number decodes to the value.
pub proof fn lemma_decode_encode(d: ScanDescriptor, value: int)
    requires
        d.valid(),
        representable(value, d.bits),
    ensures
        encoded(d, value) is Some,
        encoded(d, value)->0 <= u64::MAX,
        decoded(d, encoded(d, value)->0) == Some(value),
{
    lemma_half_range(d.bits);
    lemma_half_range(d.storage);
    match d.sign {
        Signed::Unsigned => {
            lemma_centered_of_pattern(value, d.bits);
        },
        Signed::Signed => {
            let width = if d.fix_sign {
                d.storage
            } else {
                d.bits
            };
            if d.bits < width {
                lemma_pow2_strictly_increases((d.bits - 1) as nat, (width - 1) as nat);
            }
            lemma_sign_extended_of_pattern(value, width);
        },
    }
}

/// Round trip through text: a value that the bits of a descriptor can hold
/// has a raw number, and the text of that number is converted to the value.
pub proof fn lemma_convert_encoded(d: ScanDescriptor, value: int)
    requires
        d.valid(),
        representable(value, d.bits),
    ensures
        encoded(d, value) is Some,
        converted(d, decimal_text(encoded(d, value)->0)) == Some(value),
{
    lemma_decode_encode(d, value);
    lemma_number_text(encoded(d, value)->0);
}

} // verus!
