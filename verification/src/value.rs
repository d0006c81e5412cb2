//! Primitive element values and their decoding from raw value bytes.
//!
//! A [`PrimitiveValue`] is treated as an opaque typed payload by the
//! tokenizer: it is produced once per element header and never destructured
//! by the state machine. Decoding is specified exactly over the value bytes:
//! numeric representations are little-endian, string representations are
//! interpreted byte-for-byte (each byte is its own character, as in the
//! default DICOM character repertoire) and multi-valued string
//! representations are split on the `\` separator.

use vstd::prelude::*;

use crate::decode::{read_u16, read_u32, spec_u16_at, spec_u32_at};
use crate::header::VR;

verus! {

/// The value-multiplicity separator in string values.
pub const VALUE_SEPARATOR: u8 = 0x5c;

/// An opaque typed value of one primitive (non-sequence) element.
#[derive(Clone, Debug, PartialEq, Eq)]
pub enum PrimitiveValue {
    /// Raw bytes, for representations the reader does not interpret.
    U8(Vec<u8>),
    /// Unsigned 16-bit words.
    U16(Vec<u16>),
    /// Unsigned 32-bit words.
    U32(Vec<u32>),
    /// Signed 16-bit words.
    I16(Vec<i16>),
    /// Signed 32-bit words.
    I32(Vec<i32>),
    /// A single unseparated text value.
    Str(String),
    /// One or more string values, split on the `\` separator.
    Strs(Vec<String>),
}

/// The mathematical model of a primitive value.
pub enum PrimitiveValueView {
    U8(Seq<u8>),
    U16(Seq<u16>),
    U32(Seq<u32>),
    I16(Seq<i16>),
    I32(Seq<i32>),
    Str(Seq<char>),
    Strs(Seq<Seq<char>>),
}

/// The views of a sequence of strings, in order.
pub open spec fn spec_strs_view(v: Seq<String>) -> Seq<Seq<char>> {
    Seq::new(v.len(), |i: int| v[i]@)
}

impl View for PrimitiveValue {
    type V = PrimitiveValueView;

    open spec fn view(&self) -> PrimitiveValueView {
        match self {
            PrimitiveValue::U8(v) => PrimitiveValueView::U8(v@),
            PrimitiveValue::U16(v) => PrimitiveValueView::U16(v@),
            PrimitiveValue::U32(v) => PrimitiveValueView::U32(v@),
            PrimitiveValue::I16(v) => PrimitiveValueView::I16(v@),
            PrimitiveValue::I32(v) => PrimitiveValueView::I32(v@),
            PrimitiveValue::Str(s) => PrimitiveValueView::Str(s@),
            PrimitiveValue::Strs(v) => PrimitiveValueView::Strs(spec_strs_view(v@)),
        }
    }
}

/// Each byte read as its own character.
pub open spec fn spec_chars_of(b: Seq<u8>) -> Seq<char> {
    Seq::new(b.len(), |i: int| b[i] as char)
}

/// The unsigned 16-bit words encoded little-endian in `b`.
pub open spec fn spec_u16s_of(b: Seq<u8>) -> Seq<u16> {
    Seq::new((b.len() / 2) as nat, |i: int| spec_u16_at(b, 2 * i))
}

/// The unsigned 32-bit words encoded little-endian in `b`.
pub open spec fn spec_u32s_of(b: Seq<u8>) -> Seq<u32> {
    Seq::new((b.len() / 4) as nat, |i: int| spec_u32_at(b, 4 * i))
}

/// The two's-complement reading of an unsigned 16-bit word.
pub open spec fn spec_i16_of(v: u16) -> i16 {
    if v < 0x8000 {
        v as i16
    } else {
        (v - 0x10000) as i16
    }
}

/// The two's-complement reading of an unsigned 32-bit word.
pub open spec fn spec_i32_of(v: u32) -> i32 {
    if v < 0x8000_0000 {
        v as i32
    } else {
        (v - 0x1_0000_0000) as i32
    }
}

/// The signed 16-bit words encoded little-endian in `b`.
pub open spec fn spec_i16s_of(b: Seq<u8>) -> Seq<i16> {
    Seq::new((b.len() / 2) as nat, |i: int| spec_i16_of(spec_u16_at(b, 2 * i)))
}

/// The signed 32-bit words encoded little-endian in `b`.
pub open spec fn spec_i32s_of(b: Seq<u8>) -> Seq<i32> {
    Seq::new((b.len() / 4) as nat, |i: int| spec_i32_of(spec_u32_at(b, 4 * i)))
}

/// The components of `b` split on the `\` separator. A value without a
/// separator is one component; every separator starts a new one, so the
/// result always has at least one component and an empty value has exactly
/// one empty component.
pub open spec fn spec_components(b: Seq<u8>) -> Seq<Seq<u8>>
    decreases b.len(),
{
    if b.len() == 0 {
        seq![Seq::<u8>::empty()]
    } else if b[0] == VALUE_SEPARATOR {
        seq![Seq::<u8>::empty()] + spec_components(b.skip(1))
    } else {
        let rest = spec_components(b.skip(1));
        seq![seq![b[0]] + rest[0]] + rest.skip(1)
    }
}

/// The components of `b`, each read as characters.
pub open spec fn spec_components_chars(b: Seq<u8>) -> Seq<Seq<char>> {
    Seq::new(spec_components(b).len(), |i: int| spec_chars_of(spec_components(b)[i]))
}

/// A split always has at least one component.
pub proof fn lemma_components_len(b: Seq<u8>)
    ensures
        spec_components(b).len() >= 1,
    decreases b.len(),
{
    if b.len() == 0 {
    } else if b[0] == VALUE_SEPARATOR {
    } else {
        lemma_components_len(b.skip(1));
    }
}

/// Appending a separator byte appends one fresh empty component.
pub proof fn lemma_components_push_sep(b: Seq<u8>)
    ensures
        spec_components(b.push(VALUE_SEPARATOR)) == spec_components(b).push(Seq::<u8>::empty()),
    decreases b.len(),
{
    let bp = b.push(VALUE_SEPARATOR);
    let e = Seq::<u8>::empty();
    if b.len() == 0 {
        assert(bp[0] == VALUE_SEPARATOR);
        assert(bp.skip(1) =~= e);
        assert(spec_components(e) == seq![e]);
        assert(spec_components(bp) == seq![e] + spec_components(e));
        assert(spec_components(bp) =~~= spec_components(b).push(e));
    } else {
        assert(bp[0] == b[0]);
        assert(bp.skip(1) =~= b.skip(1).push(VALUE_SEPARATOR));
        lemma_components_push_sep(b.skip(1));
        lemma_components_len(b.skip(1));
        let rest = spec_components(b.skip(1));
        let restp = spec_components(bp.skip(1));
        assert(restp == rest.push(e));
        if b[0] == VALUE_SEPARATOR {
            assert(spec_components(bp) == seq![e] + restp);
            assert(spec_components(b) == seq![e] + rest);
            assert(seq![e] + rest.push(e) =~~= (seq![e] + rest).push(e));
            assert(spec_components(bp) =~~= spec_components(b).push(e));
        } else {
            assert(spec_components(bp) == seq![seq![bp[0]] + restp[0]] + restp.skip(1));
            assert(spec_components(b) == seq![seq![b[0]] + rest[0]] + rest.skip(1));
            assert(restp[0] == rest[0]);
            assert(restp.skip(1) =~= rest.skip(1).push(e));
            assert(seq![seq![b[0]] + rest[0]] + rest.skip(1).push(e) =~~= (seq![seq![b[0]]
                + rest[0]] + rest.skip(1)).push(e));
            assert(spec_components(bp) =~~= spec_components(b).push(e));
        }
    }
}

/// Appending a non-separator byte extends the last component by that byte.
pub proof fn lemma_components_push_byte(b: Seq<u8>, c: u8)
    requires
        c != VALUE_SEPARATOR,
    ensures
        ({
            let comps = spec_components(b);
            spec_components(b.push(c)) == comps.update(
                comps.len() - 1,
                comps.last().push(c),
            )
        }),
    decreases b.len(),
{
    let comps = spec_components(b);
    let bp = b.push(c);
    let e = Seq::<u8>::empty();
    let target = comps.update(comps.len() - 1, comps.last().push(c));
    if b.len() == 0 {
        assert(bp[0] == c);
        assert(bp.skip(1) =~= e);
        assert(spec_components(e) == seq![e]);
        assert(spec_components(bp) == seq![seq![bp[0]] + spec_components(e)[0]]
            + spec_components(e).skip(1));
        assert(comps == seq![e]);
        assert(spec_components(bp) =~~= target);
    } else {
        assert(bp[0] == b[0]);
        assert(bp.skip(1) =~= b.skip(1).push(c));
        lemma_components_push_byte(b.skip(1), c);
        lemma_components_len(b.skip(1));
        let rest = spec_components(b.skip(1));
        let restp = spec_components(bp.skip(1));
        assert(restp == rest.update(rest.len() - 1, rest.last().push(c)));
        if b[0] == VALUE_SEPARATOR {
            assert(spec_components(bp) == seq![e] + restp);
            assert(comps == seq![e] + rest);
            assert(comps.len() - 1 == rest.len());
            assert(comps.last() == rest.last());
            assert(seq![e] + restp =~~= target);
            assert(spec_components(bp) =~~= target);
        } else {
            assert(spec_components(bp) == seq![seq![bp[0]] + restp[0]] + restp.skip(1));
            assert(comps == seq![seq![b[0]] + rest[0]] + rest.skip(1));
            if rest.len() == 1 {
                assert(restp[0] == rest[0].push(c));
                assert(restp.skip(1) =~= rest.skip(1));
                assert(comps.len() == 1);
                assert(comps.last() == seq![b[0]] + rest[0]);
                assert(seq![b[0]] + rest[0].push(c) =~= (seq![b[0]] + rest[0]).push(c));
                assert(spec_components(bp) =~~= target);
            } else {
                assert(restp[0] == rest[0]);
                assert(restp.skip(1) =~= rest.skip(1).update(rest.len() - 2, rest.last().push(c)));
                assert(comps.len() == rest.len());
                assert(comps.last() == rest.last());
                assert(spec_components(bp) =~~= target);
            }
        }
    }
}

/// Relies on `String::push`: appends exactly the given character to the
/// string and changes nothing else.
#[verifier::external_body]
fn push_char(s: &mut String, c: char)
    ensures
        final(s)@ == old(s)@.push(c),
{
    s.push(c);
}

/// Builds the string whose characters are the bytes of `b`, in order.
pub fn bytes_to_string(b: &Vec<u8>) -> (r: String)
    ensures
        r@ == spec_chars_of(b@),
{
    let mut s = String::new();
    let mut i: usize = 0;
    while i < b.len()
        invariant
            i <= b@.len(),
            s@.len() == i,
            forall|j: int| 0 <= j < i ==> s@[j] == (b@[j] as char),
        decreases b@.len() - i,
    {
        push_char(&mut s, b[i] as char);
        i = i + 1;
    }
    proof {
        assert(s@ =~= spec_chars_of(b@));
    }
    s
}

/// Splits the value bytes on the `\` separator and reads each component as a
/// string.
pub fn split_strings(b: &Vec<u8>) -> (r: Vec<String>)
    ensures
        spec_strs_view(r@) == spec_components_chars(b@),
{
    let mut done: Vec<String> = Vec::new();
    let mut cur: String = String::new();
    let mut i: usize = 0;
    proof {
        assert(b@.take(0) =~= Seq::<u8>::empty());
    }
    while i < b.len()
        invariant
            i <= b@.len(),
            ({
                let comps = spec_components(b@.take(i as int));
                &&& done@.len() + 1 == comps.len()
                &&& forall|j: int| 0 <= j < done@.len() ==> done@[j]@ == spec_chars_of(comps[j])
                &&& cur@ == spec_chars_of(comps.last())
            }),
        decreases b@.len() - i,
    {
        let byte = b[i];
        proof {
            assert(b@.take(i + 1) =~= b@.take(i as int).push(b@[i as int]));
            lemma_components_len(b@.take(i as int));
        }
        if byte == VALUE_SEPARATOR {
            proof {
                lemma_components_push_sep(b@.take(i as int));
            }
            done.push(cur);
            cur = String::new();
            proof {
                let comps = spec_components(b@.take(i + 1));
                assert(forall|j: int|
                    0 <= j < done@.len() ==> done@[j]@ == spec_chars_of(comps[j]));
                assert(cur@ =~= spec_chars_of(comps.last()));
            }
        } else {
            proof {
                lemma_components_push_byte(b@.take(i as int), byte);
            }
            push_char(&mut cur, byte as char);
            proof {
                let comps = spec_components(b@.take(i + 1));
                assert(cur@ =~= spec_chars_of(comps.last()));
            }
        }
        i = i + 1;
    }
    proof {
        assert(b@.take(i as int) =~= b@);
    }
    done.push(cur);
    proof {
        let comps = spec_components(b@);
        assert(spec_strs_view(done@) =~~= spec_components_chars(b@));
    }
    done
}

/// Decodes little-endian unsigned 16-bit words.
pub fn decode_u16s(b: &Vec<u8>) -> (r: Vec<u16>)
    requires
        b@.len() % 2 == 0,
    ensures
        r@ == spec_u16s_of(b@),
{
    let mut r: Vec<u16> = Vec::new();
    let n: usize = b.len();
    let mut i: usize = 0;
    while i < n
        invariant
            n == b@.len(),
            i % 2 == 0,
            i <= n,
            n % 2 == 0,
            r@.len() == i / 2,
            forall|j: int| 0 <= j < r@.len() ==> r@[j] == spec_u16_at(b@, 2 * j),
        decreases n - i,
    {
        proof {
            assert(i + 2 <= n);
        }
        let v = read_u16(b, i);
        r.push(v);
        i = i + 2;
    }
    proof {
        assert(r@ =~= spec_u16s_of(b@));
    }
    r
}

/// Decodes little-endian unsigned 32-bit words.
pub fn decode_u32s(b: &Vec<u8>) -> (r: Vec<u32>)
    requires
        b@.len() % 4 == 0,
    ensures
        r@ == spec_u32s_of(b@),
{
    let mut r: Vec<u32> = Vec::new();
    let n: usize = b.len();
    let mut i: usize = 0;
    while i < n
        invariant
            n == b@.len(),
            i % 4 == 0,
            i <= n,
            n % 4 == 0,
            r@.len() == i / 4,
            forall|j: int| 0 <= j < r@.len() ==> r@[j] == spec_u32_at(b@, 4 * j),
        decreases n - i,
    {
        proof {
            assert(i + 4 <= n);
        }
        let v = read_u32(b, i);
        r.push(v);
        i = i + 4;
    }
    proof {
        assert(r@ =~= spec_u32s_of(b@));
    }
    r
}

/// Decodes little-endian signed 16-bit words, read as two's complement.
pub fn decode_i16s(b: &Vec<u8>) -> (r: Vec<i16>)
    requires
        b@.len() % 2 == 0,
    ensures
        r@ == spec_i16s_of(b@),
{
    let mut r: Vec<i16> = Vec::new();
    let n: usize = b.len();
    let mut i: usize = 0;
    while i < n
        invariant
            n == b@.len(),
            i % 2 == 0,
            i <= n,
            n % 2 == 0,
            r@.len() == i / 2,
            forall|j: int| 0 <= j < r@.len() ==> r@[j] == spec_i16_of(spec_u16_at(b@, 2 * j)),
        decreases n - i,
    {
        proof {
            assert(i + 2 <= n);
        }
        let v = read_u16(b, i);
        let s: i16 = if v < 0x8000 {
            v as i16
        } else {
            ((v as i32) - 0x10000) as i16
        };
        r.push(s);
        i = i + 2;
    }
    proof {
        assert(r@ =~= spec_i16s_of(b@));
    }
    r
}

/// Decodes little-endian signed 32-bit words, read as two's complement.
pub fn decode_i32s(b: &Vec<u8>) -> (r: Vec<i32>)
    requires
        b@.len() % 4 == 0,
    ensures
        r@ == spec_i32s_of(b@),
{
    let mut r: Vec<i32> = Vec::new();
    let n: usize = b.len();
    let mut i: usize = 0;
    while i < n
        invariant
            n == b@.len(),
            i % 4 == 0,
            i <= n,
            n % 4 == 0,
            r@.len() == i / 4,
            forall|j: int| 0 <= j < r@.len() ==> r@[j] == spec_i32_of(spec_u32_at(b@, 4 * j)),
        decreases n - i,
    {
        proof {
            assert(i + 4 <= n);
        }
        let v = read_u32(b, i);
        let s: i32 = if v < 0x8000_0000 {
            v as i32
        } else {
            ((v as i64) - 0x1_0000_0000) as i32
        };
        r.push(s);
        i = i + 4;
    }
    proof {
        assert(r@ =~= spec_i32s_of(b@));
    }
    r
}

/// The value decoded from the raw value bytes of one element, given its
/// value representation; `None` when the byte count does not fit the
/// representation (an odd count for 16-bit words, a count not divisible by
/// four for 32-bit words) or when the representation is `SQ`, which carries
/// no primitive value.
pub open spec fn spec_value_of(vr: VR, b: Seq<u8>) -> Option<PrimitiveValueView> {
    match vr {
        VR::US | VR::OW => if b.len() % 2 == 0 {
            Some(PrimitiveValueView::U16(spec_u16s_of(b)))
        } else {
            None
        },
        VR::UL | VR::OL => if b.len() % 4 == 0 {
            Some(PrimitiveValueView::U32(spec_u32s_of(b)))
        } else {
            None
        },
        VR::SS => if b.len() % 2 == 0 {
            Some(PrimitiveValueView::I16(spec_i16s_of(b)))
        } else {
            None
        },
        VR::SL => if b.len() % 4 == 0 {
            Some(PrimitiveValueView::I32(spec_i32s_of(b)))
        } else {
            None
        },
        VR::LT | VR::ST | VR::UT => Some(PrimitiveValueView::Str(spec_chars_of(b))),
        VR::AE | VR::AS | VR::CS | VR::DA | VR::DS | VR::DT | VR::IS | VR::LO | VR::PN
        | VR::SH | VR::TM | VR::UC | VR::UI | VR::UR => Some(
            PrimitiveValueView::Strs(spec_components_chars(b)),
        ),
        VR::SQ => None,
        VR::AT | VR::FL | VR::FD | VR::OB | VR::OD | VR::OF | VR::UN => Some(
            PrimitiveValueView::U8(b),
        ),
    }
}

/// Decodes the raw value bytes of one element according to its value
/// representation, exactly as [`spec_value_of`] states.
pub fn decode_value(vr: VR, bytes: Vec<u8>) -> (r: Option<PrimitiveValue>)
    ensures
        match spec_value_of(vr, bytes@) {
            Some(v) => r matches Some(pv) && pv@ == v,
            None => r is None,
        },
{
    match vr {
        VR::US | VR::OW => if bytes.len() % 2 == 0 {
            Some(PrimitiveValue::U16(decode_u16s(&bytes)))
        } else {
            None
        },
        VR::UL | VR::OL => if bytes.len() % 4 == 0 {
            Some(PrimitiveValue::U32(decode_u32s(&bytes)))
        } else {
            None
        },
        VR::SS => if bytes.len() % 2 == 0 {
            Some(PrimitiveValue::I16(decode_i16s(&bytes)))
        } else {
            None
        },
        VR::SL => if bytes.len() % 4 == 0 {
            Some(PrimitiveValue::I32(decode_i32s(&bytes)))
        } else {
            None
        },
        VR::LT | VR::ST | VR::UT => Some(PrimitiveValue::Str(bytes_to_string(&bytes))),
        VR::AE | VR::AS | VR::CS | VR::DA | VR::DS | VR::DT | VR::IS | VR::LO | VR::PN
        | VR::SH | VR::TM | VR::UC | VR::UI | VR::UR => Some(
            PrimitiveValue::Strs(split_strings(&bytes)),
        ),
        VR::SQ => None,
        VR::AT | VR::FL | VR::FD | VR::OB | VR::OD | VR::OF | VR::UN => Some(
            PrimitiveValue::U8(bytes),
        ),
    }
}

} // verus!
