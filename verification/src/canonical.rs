//! The plain way of writing a descriptor, and the law that reading it gives
//! the descriptor back.

use vstd::prelude::*;
use crate::descriptor::{
    described,
    descriptor_of,
    endian_at,
    fields_at,
    first_fields,
    number_from,
    repeat_mark_at,
    shift_mark_at,
    sign_at,
    small_number,
    Endian,
    DEFAULT_ENDIANNESS,
    DEFAULT_REPEAT,
    DEFAULT_RSHIFT,
    DEFAULT_SIGNED,
    ScanDescriptor,
    ScanType,
    Signed,
};
use crate::text::{
    decimal_text,
    digits_end,
    is_digit,
    lemma_decimal_text,
    lemma_digits_end_is,
    push_decimal,
};

verus! {

/// The byte order as a descriptor names it, with the colon behind it.
pub open spec fn endian_text(endianness: Endian) -> Seq<char> {
    match endianness {
        Endian::Big => seq!['b', 'e', ':'],
        Endian::Little => seq!['l', 'e', ':'],
    }
}

/// The signedness as a descriptor names it.
pub open spec fn sign_text(sign: Signed) -> Seq<char> {
    match sign {
        Signed::Signed => seq!['s'],
        Signed::Unsigned => seq!['u'],
    }
}

/// Which of the parts of a descriptor that may be left out are written.
pub struct Written {
    pub endian: bool,
    pub sign: bool,
    pub repeat: bool,
    pub shift: bool,
}

/// Whether `d` can be written with the parts `written` only: a part can be
/// left out where it has its default.
pub open spec fn writable(d: ScanDescriptor, written: Written) -> bool {
    &&& d.valid()
    &&& d.repeat <= 255
    &&& d.shift <= 255
    &&& !written.endian ==> d.endianness == DEFAULT_ENDIANNESS
    &&& !written.sign ==> d.sign == DEFAULT_SIGNED
    &&& !written.repeat ==> d.repeat == DEFAULT_REPEAT
    &&& !written.shift ==> d.shift == DEFAULT_RSHIFT
}

/// The text before the bits: the byte order and the sign, as far as they
/// are written.
pub open spec fn head_text(d: ScanDescriptor, written: Written) -> Seq<char> {
    (if written.endian {
        endian_text(d.endianness)
    } else {
        Seq::empty()
    }) + (if written.sign {
        sign_text(d.sign)
    } else {
        Seq::empty()
    })
}

/// The text behind the storage: the repeat count and the shift with their
/// marks, as far as they are written.
pub open spec fn tail_text(d: ScanDescriptor, written: Written) -> Seq<char> {
    (if written.repeat {
        seq!['X'] + decimal_text(d.repeat)
    } else {
        Seq::empty()
    }) + (if written.shift {
        seq!['>', '>'] + decimal_text(d.shift)
    } else {
        Seq::empty()
    })
}

/// The descriptor `d` written with the parts `written`:
/// `endian:sign bits/storage X repeat >> shift`, without the spaces.
pub open spec fn descriptor_text(d: ScanDescriptor, written: Written) -> Seq<char> {
    head_text(d, written) + decimal_text(d.bits) + seq!['/'] + decimal_text(d.storage) + tail_text(
        d,
        written,
    )
}

/// A run of digits within a text, with no digit behind it, is read as the
/// number that it writes.
proof fn lemma_number_in(s: Seq<char>, from: int, digits: Seq<char>)
    requires
        0 <= from,
        from + digits.len() <= s.len(),
        s.subrange(from, from + digits.len()) == digits,
        digits.len() > 0,
        forall|i: int| 0 <= i < digits.len() ==> is_digit(#[trigger] digits[i]),
        from + digits.len() < s.len() ==> !is_digit(s[from + digits.len()]),
    ensures
        digits_end(s, from) == from + digits.len(),
        number_from(s, from) == Some((from + digits.len(), small_number(digits))),
{
    assert forall|i: int| from <= i < from + digits.len() implies is_digit(s[i]) by {
        assert(s[i] == s.subrange(from, from + digits.len())[i - from]);
        assert(is_digit(digits[i - from]));
    }
    lemma_digits_end_is(s, from, from + digits.len());
}

/// Where the head of a descriptor stands at the start of a text and a
/// digit stands behind it, the byte order and the sign are read as far as
/// they are written.
proof fn lemma_head_read(t: Seq<char>, d: ScanDescriptor, written: Written)
    requires
        head_text(d, written).len() < t.len(),
        t.subrange(0, head_text(d, written).len() as int) == head_text(d, written),
        is_digit(t[head_text(d, written).len() as int]),
    ensures
        endian_at(t, 0) == (if written.endian {
            Some(d.endianness)
        } else {
            None
        }),
        sign_at(
            t,
            if written.endian {
                3
            } else {
                0
            },
        ) == (if written.sign {
            Some(d.sign)
        } else {
            None
        }),
        head_text(d, written).len() == (if written.endian {
            3int
        } else {
            0int
        }) + (if written.sign {
            1int
        } else {
            0int
        }),
{
    let head = head_text(d, written);
    let n = head.len() as int;
    assert forall|i: int| 0 <= i < n implies t[i] == head[i] by {
        assert(t.subrange(0, n)[i] == t[i]);
    }
    if written.endian {
        assert(head[0] == endian_text(d.endianness)[0]);
        assert(head[1] == 'e');
        assert(head[2] == ':');
        if written.sign {
            assert(head[3] == sign_text(d.sign)[0]);
        }
    } else {
        if written.sign {
            assert(head[0] == sign_text(d.sign)[0]);
        }
    }
}

/// Where the tail of a descriptor stands at the end of a text, the repeat
/// count and the shift are read as far as they are written.
proof fn lemma_tail_read(t: Seq<char>, at: int, d: ScanDescriptor, written: Written)
    requires
        0 <= at <= t.len(),
        t.subrange(at, t.len() as int) == tail_text(d, written),
    ensures
        ({
            let repeat = if repeat_mark_at(t, at) {
                number_from(t, at + 1)
            } else {
                None
            };
            let shift_at = match repeat {
                Some((end, _)) => end,
                None => at,
            };
            let shift = if shift_mark_at(t, shift_at) {
                number_from(t, shift_at + 2)
            } else {
                None
            };
            &&& match repeat {
                Some((_, value)) => written.repeat && value == small_number(
                    decimal_text(d.repeat),
                ),
                None => !written.repeat,
            }
            &&& match shift {
                Some((_, value)) => written.shift && value == small_number(decimal_text(d.shift)),
                None => !written.shift,
            }
        }),
{
    let tail = tail_text(d, written);
    let r = decimal_text(d.repeat);
    let sh = decimal_text(d.shift);
    lemma_decimal_text(d.repeat);
    lemma_decimal_text(d.shift);
    let counted: Seq<char> = if written.repeat {
        seq!['X'] + r
    } else {
        Seq::empty()
    };
    let shifted: Seq<char> = if written.shift {
        seq!['>', '>'] + sh
    } else {
        Seq::empty()
    };
    assert(tail == counted + shifted);
    assert(t.len() == at + counted.len() + shifted.len()) by {
        assert(t.subrange(at, t.len() as int).len() == tail.len());
    }
    assert forall|i: int| at <= i < t.len() implies t[i] == tail[i - at] by {
        assert(t.subrange(at, t.len() as int)[i - at] == t[i]);
    }
    let skip = counted.len() as int;
    let shift_at = at + skip;
    if written.repeat {
        assert(tail[0] == 'X');
        assert forall|k: int| 0 <= k < r.len() implies t[at + 1 + k] == r[k] by {
            assert(tail[1 + k] == counted[1 + k]);
            assert(counted[1 + k] == r[k]);
        }
        assert(t.subrange(at + 1, shift_at) =~= r);
        if written.shift {
            assert(tail[skip] == shifted[0]);
            assert(!is_digit(t[shift_at]));
        }
        lemma_number_in(t, at + 1, r);
    }
    if written.shift {
        assert(tail[skip] == shifted[0]);
        assert(tail[skip + 1] == shifted[1]);
        assert(t[shift_at] == '>');
        assert(t[shift_at + 1] == '>');
        assert forall|k: int| 0 <= k < sh.len() implies t[shift_at + 2 + k] == sh[k] by {
            assert(tail[skip + 2 + k] == shifted[2 + k]);
            assert(shifted[2 + k] == sh[k]);
        }
        assert(t.subrange(shift_at + 2, t.len() as int) =~= sh);
        lemma_number_in(t, shift_at + 2, sh);
    }
}

/// Reading back: the text of a descriptor holds that descriptor. Every
/// descriptor whose widths fit together, and whose repeat count and shift
/// fit in eight bits, can be written as a text that is read as it, and the
/// parts that have their defaults can be left out of the text.
pub proof fn lemma_read_back(d: ScanDescriptor, written: Written)
    requires
        writable(d, written),
    ensures
        described(descriptor_text(d, written), d.fix_sign) == Some(d),
{
    let b = decimal_text(d.bits);
    let st = decimal_text(d.storage);
    lemma_decimal_text(d.bits);
    lemma_decimal_text(d.storage);
    lemma_decimal_text(d.repeat);
    lemma_decimal_text(d.shift);
    let head = head_text(d, written);
    let tail = tail_text(d, written);
    let t = descriptor_text(d, written);
    let bits_from = head.len() as int;
    let bits_end = bits_from + b.len();
    let storage_from = bits_end + 1;
    let storage_end = storage_from + st.len();
    assert(t.len() == storage_end + tail.len());
    assert(t.subrange(0, bits_from) =~= head);
    assert(t.subrange(bits_from, bits_end) =~= b);
    assert(t[bits_end] == '/');
    assert(t.subrange(storage_from, storage_end) =~= st);
    assert(t.subrange(storage_end, t.len() as int) =~= tail);
    assert(t[bits_from] == b[0]);
    assert(is_digit(b[0]));
    lemma_head_read(t, d, written);
    lemma_tail_read(t, storage_end, d, written);
    assert(storage_end < t.len() ==> !is_digit(t[storage_end])) by {
        if storage_end < t.len() {
            assert(t[storage_end] == tail[0]);
        }
    }
    lemma_number_in(t, bits_from, b);
    lemma_number_in(t, storage_from, st);
    let fields = fields_at(t, 0);
    assert(fields is Some);
    assert(fields->0.bits == Some(d.bits as u8));
    assert(fields->0.storage == Some(d.storage as u8));
    assert(first_fields(t, 0) == fields);
    assert(descriptor_of(fields->0, d.fix_sign) == Some(d));
}

/// All parts written.
pub open spec fn in_full() -> Written {
    Written { endian: true, sign: true, repeat: true, shift: true }
}

impl ScanType {
    /// Returns the descriptor written out in full, as a text that is read as
    /// the descriptor again.
    pub fn to_text(&self) -> (text: String)
        ensures
            text@ == descriptor_text(self@, in_full()),
            described(text@, self@.fix_sign) == Some(self@),
    {
        proof {
            reveal_strlit("be:");
            reveal_strlit("le:");
            reveal_strlit("s");
            reveal_strlit("u");
            reveal_strlit("/");
            reveal_strlit("X");
            reveal_strlit(">>");
        }
        let mut text = match self.endianness() {
            Endian::Big => "be:".to_owned(),
            Endian::Little => "le:".to_owned(),
        };
        assert(text@ =~= endian_text(self@.endianness));
        match self.sign() {
            Signed::Signed => text.append("s"),
            Signed::Unsigned => text.append("u"),
        }
        assert(text@ =~= head_text(self@, in_full()));
        let bits: u8 = self.bits();
        let storage: u8 = self.storagebits();
        let repeat: u8 = self.repeat();
        let shift: u8 = self.rshift();
        push_decimal(&mut text, bits as u64);
        text.append("/");
        push_decimal(&mut text, storage as u64);
        let ghost upto_storage = text@;
        text.append("X");
        push_decimal(&mut text, repeat as u64);
        text.append(">>");
        push_decimal(&mut text, shift as u64);
        proof {
            assert(upto_storage =~= head_text(self@, in_full()) + decimal_text(self@.bits) + seq!['/']
                + decimal_text(self@.storage));
            assert(text@ =~= upto_storage + tail_text(self@, in_full()));
            lemma_read_back(self@, in_full());
        }
        text
    }
}

} // verus!
