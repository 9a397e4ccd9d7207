//! Little-endian records of fixed-width integer fields, each field with a
//! domain check, decoded to and encoded from sequences of raw values.
use vstd::prelude::*;

verus! {

/// Errors of decoding or encoding a record.
#[derive(Clone, Copy, PartialEq, Eq, Structural, Debug)]
pub enum LayoutError {
    /// The input ended inside a field.
    Incomplete,
    /// A field holds a value outside its set of codes, or the input does
    /// not have the expected shape.
    Parse,
    /// A field's value fails its range check.
    Assertion,
}

/// One field of a record: `width` bytes (1, 2 or 4), read as a signed or
/// unsigned little-endian integer. When `ncodes` is non-zero the value must
/// be one of the first `ncodes` of `c0`..`c3` (else `Parse`, or `Assertion`
/// when `code_assert` is set); otherwise it must lie in `lo..=hi` (else
/// `Assertion`).
#[derive(Clone, Copy, PartialEq, Eq, Structural, Debug)]
pub struct FieldSpec {
    pub width: u8,
    pub signed: bool,
    pub lo: i64,
    pub hi: i64,
    pub ncodes: u8,
    pub c0: u8,
    pub c1: u8,
    pub c2: u8,
    pub c3: u8,
    pub code_assert: bool,
}

/// A field spec with the given parts.
pub open spec fn fs(
    width: u8,
    signed: bool,
    lo: i64,
    hi: i64,
    ncodes: u8,
    c0: u8,
    c1: u8,
    c2: u8,
    c3: u8,
    code_assert: bool,
) -> FieldSpec {
    FieldSpec { width, signed, lo, hi, ncodes, c0, c1, c2, c3, code_assert }
}

pub fn mk_field(
    width: u8,
    signed: bool,
    lo: i64,
    hi: i64,
    ncodes: u8,
    c0: u8,
    c1: u8,
    c2: u8,
    c3: u8,
    code_assert: bool,
) -> (r: FieldSpec)
    ensures
        r == fs(width, signed, lo, hi, ncodes, c0, c1, c2, c3, code_assert),
{
    FieldSpec { width, signed, lo, hi, ncodes, c0, c1, c2, c3, code_assert }
}

/// Number of distinct values of a field of width `w`.
pub open spec fn full_range(w: u8) -> int {
    if w == 1 {
        0x100
    } else if w == 2 {
        0x1_0000
    } else {
        0x1_0000_0000
    }
}

/// The width is one of 1, 2 and 4.
pub open spec fn width_ok(f: FieldSpec) -> bool {
    f.width == 1 || f.width == 2 || f.width == 4
}

/// Every field of the layout has a supported width.
pub open spec fn layout_ok(layout: Seq<FieldSpec>) -> bool {
    forall|i: int| 0 <= i < layout.len() ==> width_ok(#[trigger] layout[i])
}

/// Unsigned little-endian value of the `w` bytes of `b` from `off`.
pub open spec fn raw_unsigned(w: u8, b: Seq<u8>, off: int) -> u32 {
    if w == 1 {
        b[off] as u32
    } else if w == 2 {
        b[off] as u32 | (b[off + 1] as u32) << 8u32
    } else {
        b[off] as u32 | (b[off + 1] as u32) << 8u32 | (b[off + 2] as u32) << 16u32 | (b[off
            + 3] as u32) << 24u32
    }
}

/// Value of field `f` stored at `off` in `b`.
pub open spec fn field_value(f: FieldSpec, b: Seq<u8>, off: int) -> int {
    let u = raw_unsigned(f.width, b, off) as int;
    if f.signed && u >= full_range(f.width) / 2 {
        u - full_range(f.width)
    } else {
        u
    }
}

/// Whether `v` is one of the codes of `f`.
pub open spec fn code_ok(f: FieldSpec, v: int) -> bool {
    ||| (f.ncodes >= 1 && v == f.c0 as int)
    ||| (f.ncodes >= 2 && v == f.c1 as int)
    ||| (f.ncodes >= 3 && v == f.c2 as int)
    ||| (f.ncodes >= 4 && v == f.c3 as int)
}

/// The error that value `v` of field `f` causes, if any.
pub open spec fn field_error(f: FieldSpec, v: int) -> Option<LayoutError> {
    if f.ncodes > 0 {
        if code_ok(f, v) {
            None
        } else if f.code_assert {
            Some(LayoutError::Assertion)
        } else {
            Some(LayoutError::Parse)
        }
    } else if f.lo <= v <= f.hi {
        None
    } else {
        Some(LayoutError::Assertion)
    }
}

/// The values that field `f` can hold.
pub open spec fn in_width(f: FieldSpec, v: int) -> bool {
    if f.signed {
        -full_range(f.width) / 2 <= v < full_range(f.width) / 2
    } else {
        0 <= v < full_range(f.width)
    }
}

/// Number of bytes of a record with the layout.
pub open spec fn layout_size(layout: Seq<FieldSpec>) -> int
    decreases layout.len(),
{
    if layout.len() == 0 {
        0
    } else {
        layout[0].width + layout_size(layout.drop_first())
    }
}

/// Decode the fields of `layout` in order from `off` in `b`: the first
/// field that does not fit in the input yields `Incomplete`, the first
/// value that fails its check yields that check's error.
pub open spec fn decode_fields(layout: Seq<FieldSpec>, b: Seq<u8>, off: int) -> Result<
    Seq<i64>,
    LayoutError,
>
    decreases layout.len(),
{
    if layout.len() == 0 {
        Ok(Seq::empty())
    } else {
        let f = layout[0];
        if off + f.width > b.len() {
            Err(LayoutError::Incomplete)
        } else {
            let v = field_value(f, b, off);
            match field_error(f, v) {
                Some(e) => Err(e),
                None => match decode_fields(layout.drop_first(), b, off + f.width) {
                    Ok(vs) => Ok(seq![v as i64] + vs),
                    Err(e) => Err(e),
                },
            }
        }
    }
}

/// Little-endian bytes of value `v` in field `f`.
pub open spec fn field_bytes(f: FieldSpec, v: int) -> Seq<u8> {
    let x = (if v < 0 {
        v + full_range(f.width)
    } else {
        v
    }) as u32;
    if f.width == 1 {
        seq![(x & 0xffu32) as u8]
    } else if f.width == 2 {
        seq![(x & 0xffu32) as u8, ((x >> 8u32) & 0xffu32) as u8]
    } else {
        seq![
            (x & 0xffu32) as u8,
            ((x >> 8u32) & 0xffu32) as u8,
            ((x >> 16u32) & 0xffu32) as u8,
            ((x >> 24u32) & 0xffu32) as u8,
        ]
    }
}

/// Bytes of the values `vals` in the fields of `layout`.
pub open spec fn encode_fields(layout: Seq<FieldSpec>, vals: Seq<i64>) -> Seq<u8>
    decreases layout.len(),
{
    if layout.len() == 0 || vals.len() == 0 {
        Seq::empty()
    } else {
        field_bytes(layout[0], vals[0] as int) + encode_fields(layout.drop_first(), vals.drop_first())
    }
}

/// One value per field, each representable in its field and passing its
/// check.
pub open spec fn vals_ok(layout: Seq<FieldSpec>, vals: Seq<i64>) -> bool {
    &&& vals.len() == layout.len()
    &&& forall|i: int|
        0 <= i < layout.len() ==> in_width(layout[i], #[trigger] vals[i] as int) && field_error(
            layout[i],
            vals[i] as int,
        ) is None
}

/// The error of the first value that fails its field's check, if any.
pub open spec fn first_error(layout: Seq<FieldSpec>, vals: Seq<i64>) -> Option<LayoutError>
    decreases layout.len(),
{
    if layout.len() == 0 || vals.len() == 0 {
        None
    } else {
        match field_error(layout[0], vals[0] as int) {
            Some(e) => Some(e),
            None => first_error(layout.drop_first(), vals.drop_first()),
        }
    }
}

proof fn lemma_field_roundtrip(f: FieldSpec, v: int, pre: Seq<u8>, post: Seq<u8>)
    requires
        width_ok(f),
        in_width(f, v),
    ensures
        field_bytes(f, v).len() == f.width,
        field_value(f, pre + field_bytes(f, v) + post, pre.len() as int) == v,
{
    let x = (if v < 0 {
        v + full_range(f.width)
    } else {
        v
    }) as u32;
    let b = pre + field_bytes(f, v) + post;
    let o = pre.len() as int;
    if f.width == 1 {
        assert(b[o] == field_bytes(f, v)[0]);
        assert(x < 0x100);
        assert(x < 0x100u32 ==> ((x & 0xffu32) as u8) as u32 == x) by (bit_vector);
    } else if f.width == 2 {
        assert(b[o] == field_bytes(f, v)[0]);
        assert(b[o + 1] == field_bytes(f, v)[1]);
        assert(x < 0x1_0000);
        assert(x < 0x1_0000u32 ==> (((x & 0xffu32) as u8) as u32 | (((x >> 8u32) & 0xffu32) as u8
            as u32) << 8u32) == x) by (bit_vector);
    } else {
        assert(b[o] == field_bytes(f, v)[0]);
        assert(b[o + 1] == field_bytes(f, v)[1]);
        assert(b[o + 2] == field_bytes(f, v)[2]);
        assert(b[o + 3] == field_bytes(f, v)[3]);
        assert((((x & 0xffu32) as u8) as u32 | (((x >> 8u32) & 0xffu32) as u8 as u32) << 8u32 | (((x
            >> 16u32) & 0xffu32) as u8 as u32) << 16u32 | (((x >> 24u32) & 0xffu32) as u8 as u32)
            << 24u32) == x) by (bit_vector);
    }
}

/// Decoding the encoding of values that fit their fields and pass their
/// checks gives the values back, whatever surrounds the encoding.
pub proof fn lemma_decode_encode(layout: Seq<FieldSpec>, vals: Seq<i64>, pre: Seq<u8>, post: Seq<u8>)
    requires
        layout_ok(layout),
        vals_ok(layout, vals),
    ensures
        encode_fields(layout, vals).len() == layout_size(layout),
        decode_fields(layout, pre + encode_fields(layout, vals) + post, pre.len() as int) == Ok::<
            Seq<i64>,
            LayoutError,
        >(vals),
    decreases layout.len(),
{
    if layout.len() == 0 {
        assert(vals =~= Seq::<i64>::empty());
    } else {
        let f = layout[0];
        let v = vals[0] as int;
        assert(width_ok(layout[0]));
        assert(in_width(layout[0], vals[0] as int));
        let rest_l = layout.drop_first();
        let rest_v = vals.drop_first();
        assert(layout_ok(rest_l)) by {
            assert forall|i: int| 0 <= i < rest_l.len() implies width_ok(#[trigger] rest_l[i]) by {
                assert(rest_l[i] == layout[i + 1]);
            }
        }
        assert(vals_ok(rest_l, rest_v)) by {
            assert forall|i: int| 0 <= i < rest_l.len() implies in_width(
                rest_l[i],
                #[trigger] rest_v[i] as int,
            ) && field_error(rest_l[i], rest_v[i] as int) is None by {
                assert(rest_l[i] == layout[i + 1]);
                assert(rest_v[i] == vals[i + 1]);
            }
        }
        let fb = field_bytes(f, v);
        let eb = encode_fields(rest_l, rest_v);
        lemma_field_roundtrip(f, v, pre, eb + post);
        lemma_decode_encode(rest_l, rest_v, pre + fb, post);
        let whole = pre + encode_fields(layout, vals) + post;
        assert(encode_fields(layout, vals) == fb + eb);
        assert(whole =~= pre + fb + (eb + post));
        assert(whole =~= (pre + fb) + eb + post);
        assert((pre + fb).len() == pre.len() + f.width);
        assert(seq![vals[0]] + rest_v =~= vals);
    }
}

/// Decoding yields one value per field; each fits its field and passes its
/// check, and the fields occupy `layout_size` bytes of the input.
pub proof fn lemma_decode_ok(layout: Seq<FieldSpec>, b: Seq<u8>, off: int)
    requires
        layout_ok(layout),
        0 <= off <= b.len(),
        decode_fields(layout, b, off) is Ok,
    ensures
        vals_ok(layout, decode_fields(layout, b, off)->Ok_0),
        off + layout_size(layout) <= b.len(),
    decreases layout.len(),
{
    if layout.len() > 0 {
        let f = layout[0];
        let rest_l = layout.drop_first();
        assert(width_ok(layout[0]));
        assert(layout_ok(rest_l)) by {
            assert forall|i: int| 0 <= i < rest_l.len() implies width_ok(#[trigger] rest_l[i]) by {
                assert(rest_l[i] == layout[i + 1]);
            }
        }
        lemma_decode_ok(rest_l, b, off + f.width);
        let v = field_value(f, b, off);
        let u = raw_unsigned(f.width, b, off);
        if f.width == 1 {
            assert(u < 0x100) by {
                let b0 = b[off];
                assert((b0 as u32) < 0x100u32) by (bit_vector);
            }
        } else if f.width == 2 {
            assert(u < 0x1_0000) by {
                let b0 = b[off];
                let b1 = b[off + 1];
                assert((b0 as u32 | (b1 as u32) << 8u32) < 0x1_0000u32) by (bit_vector);
            }
        }
        let vs = decode_fields(rest_l, b, off + f.width)->Ok_0;
        let all = decode_fields(layout, b, off)->Ok_0;
        assert(all == seq![v as i64] + vs);
        assert forall|i: int| 0 <= i < layout.len() implies in_width(layout[i], #[trigger] all[i] as int)
            && field_error(layout[i], all[i] as int) is None by {
            if i > 0 {
                assert(all[i] == vs[i - 1]);
                assert(layout[i] == rest_l[i - 1]);
            }
        }
    }
}

/// `r` with `p` put in front of its values.
pub open spec fn prepend(p: Seq<i64>, r: Result<Seq<i64>, LayoutError>) -> Result<
    Seq<i64>,
    LayoutError,
> {
    match r {
        Ok(v) => Ok(p + v),
        Err(e) => Err(e),
    }
}

pub fn field_error_of(f: &FieldSpec, v: i64) -> (r: Option<LayoutError>)
    ensures
        r == field_error(*f, v as int),
{
    if f.ncodes > 0 {
        if (f.ncodes >= 1 && v == f.c0 as i64) || (f.ncodes >= 2 && v == f.c1 as i64) || (f.ncodes
            >= 3 && v == f.c2 as i64) || (f.ncodes >= 4 && v == f.c3 as i64) {
            None
        } else if f.code_assert {
            Some(LayoutError::Assertion)
        } else {
            Some(LayoutError::Parse)
        }
    } else if f.lo <= v && v <= f.hi {
        None
    } else {
        Some(LayoutError::Assertion)
    }
}

/// Decode the fields of `layout` from `off` in `b` (see `decode_fields`).
pub fn decode_fields_from(layout: &Vec<FieldSpec>, b: &[u8], off: usize) -> (r: Result<
    Vec<i64>,
    LayoutError,
>)
    requires
        layout_ok(layout@),
        off <= b@.len(),
    ensures
        match r {
            Ok(v) => decode_fields(layout@, b@, off as int) == Ok::<Seq<i64>, LayoutError>(v@),
            Err(e) => decode_fields(layout@, b@, off as int) == Err::<Seq<i64>, LayoutError>(e),
        },
{
    let mut vals: Vec<i64> = Vec::new();
    let mut pos: usize = off;
    let mut i: usize = 0;
    let n: usize = b.len();
    proof {
        assert(layout@.skip(0) =~= layout@);
        assert(Seq::<i64>::empty() + Seq::<i64>::empty() =~= Seq::<i64>::empty());
        assert forall|t: Seq<i64>| Seq::<i64>::empty() + t =~= t by {}
    }
    while i < layout.len()
        invariant
            0 <= i <= layout@.len(),
            off <= pos <= n,
            n == b@.len(),
            layout_ok(layout@),
            decode_fields(layout@, b@, off as int) == prepend(
                vals@,
                decode_fields(layout@.skip(i as int), b@, pos as int),
            ),
        decreases layout@.len() - i,
    {
        let f: FieldSpec = layout[i];
        proof {
            assert(width_ok(layout@[i as int]));
            assert(layout@.skip(i as int)[0] == f);
            assert(layout@.skip(i as int).drop_first() =~= layout@.skip(i + 1));
        }
        let w: usize = f.width as usize;
        if pos > n || n - pos < w {
            return Err(LayoutError::Incomplete);
        }
        let u: u32 = if f.width == 1 {
            b[pos] as u32
        } else if f.width == 2 {
            b[pos] as u32 | (b[pos + 1] as u32) << 8u32
        } else {
            b[pos] as u32 | (b[pos + 1] as u32) << 8u32 | (b[pos + 2] as u32) << 16u32 | (b[pos
                + 3] as u32) << 24u32
        };
        let full: i64 = if f.width == 1 {
            0x100
        } else if f.width == 2 {
            0x1_0000
        } else {
            0x1_0000_0000
        };
        let v: i64 = if f.signed && (u as i64) >= full / 2 {
            u as i64 - full
        } else {
            u as i64
        };
        assert(v as int == field_value(f, b@, pos as int));
        match field_error_of(&f, v) {
            Some(e) => {
                return Err(e);
            },
            None => {},
        }
        let ghost before = vals@;
        vals.push(v);
        proof {
            let rest = decode_fields(layout@.skip(i + 1), b@, pos + w);
            match rest {
                Ok(vs) => {
                    assert(before + (seq![v] + vs) =~= vals@ + vs);
                },
                Err(_) => {},
            }
        }
        pos = pos + w;
        i = i + 1;
    }
    proof {
        assert(layout@.skip(i as int) =~= Seq::<FieldSpec>::empty());
        assert(vals@ + Seq::<i64>::empty() =~= vals@);
    }
    Ok(vals)
}

/// Append the bytes of `vals` in the fields of `layout` to `out`.
pub fn encode_fields_into(layout: &Vec<FieldSpec>, vals: &Vec<i64>, out: &mut Vec<u8>)
    requires
        layout_ok(layout@),
        vals_ok(layout@, vals@),
    ensures
        final(out)@ == old(out)@ + encode_fields(layout@, vals@),
{
    let ghost start = out@;
    let mut i: usize = 0;
    proof {
        assert(layout@.skip(0) =~= layout@);
        assert(vals@.skip(0) =~= vals@);
    }
    while i < layout.len()
        invariant
            0 <= i <= layout@.len(),
            layout_ok(layout@),
            vals_ok(layout@, vals@),
            start + encode_fields(layout@, vals@) == out@ + encode_fields(
                layout@.skip(i as int),
                vals@.skip(i as int),
            ),
        decreases layout@.len() - i,
    {
        let f: FieldSpec = layout[i];
        let v: i64 = vals[i];
        proof {
            assert(width_ok(layout@[i as int]));
            assert(in_width(layout@[i as int], vals@[i as int] as int));
            assert(layout@.skip(i as int)[0] == f);
            assert(vals@.skip(i as int)[0] == v);
            assert(layout@.skip(i as int).drop_first() =~= layout@.skip(i + 1));
            assert(vals@.skip(i as int).drop_first() =~= vals@.skip(i + 1));
        }
        let full: i64 = if f.width == 1 {
            0x100
        } else if f.width == 2 {
            0x1_0000
        } else {
            0x1_0000_0000
        };
        let x: u32 = (if v < 0 {
            v + full
        } else {
            v
        }) as u32;
        let ghost before = out@;
        out.push((x & 0xff) as u8);
        if f.width >= 2 {
            out.push(((x >> 8u32) & 0xff) as u8);
        }
        if f.width == 4 {
            out.push(((x >> 16u32) & 0xff) as u8);
            out.push(((x >> 24u32) & 0xff) as u8);
        }
        proof {
            assert(out@ =~= before + field_bytes(f, v as int));
            assert(encode_fields(layout@.skip(i as int), vals@.skip(i as int)) == field_bytes(
                f,
                v as int,
            ) + encode_fields(layout@.skip(i + 1), vals@.skip(i + 1)));
            assert(before + (field_bytes(f, v as int) + encode_fields(
                layout@.skip(i + 1),
                vals@.skip(i + 1),
            )) =~= out@ + encode_fields(layout@.skip(i + 1), vals@.skip(i + 1)));
        }
        i = i + 1;
    }
    proof {
        assert(layout@.skip(i as int) =~= Seq::<FieldSpec>::empty());
        assert(out@ + Seq::<u8>::empty() =~= out@);
    }
}

/// The first check error of `vals` in the fields of `layout` (see
/// `first_error`).
pub fn first_error_of(layout: &Vec<FieldSpec>, vals: &Vec<i64>) -> (r: Option<LayoutError>)
    requires
        vals@.len() == layout@.len(),
    ensures
        r == first_error(layout@, vals@),
        r is None ==> forall|i: int|
            0 <= i < layout@.len() ==> field_error(layout@[i], #[trigger] vals@[i] as int) is None,
{
    let mut i: usize = 0;
    proof {
        assert(layout@.skip(0) =~= layout@);
        assert(vals@.skip(0) =~= vals@);
    }
    while i < layout.len()
        invariant
            0 <= i <= layout@.len(),
            vals@.len() == layout@.len(),
            first_error(layout@, vals@) == first_error(layout@.skip(i as int), vals@.skip(i as int)),
            forall|j: int| 0 <= j < i ==> field_error(layout@[j], #[trigger] vals@[j] as int) is None,
        decreases layout@.len() - i,
    {
        proof {
            assert(layout@.skip(i as int).drop_first() =~= layout@.skip(i + 1));
            assert(vals@.skip(i as int).drop_first() =~= vals@.skip(i + 1));
        }
        match field_error_of(&layout[i], vals[i]) {
            Some(e) => {
                return Some(e);
            },
            None => {},
        }
        i = i + 1;
    }
    None
}

/// Total width of the first `i` fields of `layout`.
pub open spec fn widths_upto(layout: Seq<FieldSpec>, i: int) -> int
    decreases i,
{
    if i <= 0 {
        0
    } else {
        widths_upto(layout, i - 1) + layout[i - 1].width
    }
}

proof fn lemma_widths_upto_shift(layout: Seq<FieldSpec>, i: int)
    requires
        1 <= i <= layout.len(),
    ensures
        widths_upto(layout, i) == layout[0].width + widths_upto(layout.drop_first(), i - 1),
    decreases i,
{
    if i > 1 {
        lemma_widths_upto_shift(layout, i - 1);
        assert(layout.drop_first()[i - 2] == layout[i - 1]);
    } else {
        assert(widths_upto(layout, 0) == 0);
        assert(widths_upto(layout.drop_first(), 0) == 0);
    }
}

/// The size of a layout is the sum of its field widths.
pub proof fn lemma_layout_size_widths(layout: Seq<FieldSpec>)
    ensures
        layout_size(layout) == widths_upto(layout, layout.len() as int),
    decreases layout.len(),
{
    if layout.len() > 0 {
        lemma_layout_size_widths(layout.drop_first());
        lemma_widths_upto_shift(layout, layout.len() as int);
    }
}

/// The encoding of one value per field has the layout's size.
pub proof fn lemma_encode_len(layout: Seq<FieldSpec>, vals: Seq<i64>)
    requires
        layout_ok(layout),
        vals.len() == layout.len(),
    ensures
        encode_fields(layout, vals).len() == layout_size(layout),
    decreases layout.len(),
{
    if layout.len() > 0 {
        let rest_l = layout.drop_first();
        assert(width_ok(layout[0]));
        assert(layout_ok(rest_l)) by {
            assert forall|i: int| 0 <= i < rest_l.len() implies width_ok(#[trigger] rest_l[i]) by {
                assert(rest_l[i] == layout[i + 1]);
            }
        }
        lemma_encode_len(rest_l, vals.drop_first());
    }
}

/// Values with a check error do not all pass their checks.
pub proof fn lemma_first_error_some(layout: Seq<FieldSpec>, vals: Seq<i64>)
    requires
        first_error(layout, vals) is Some,
    ensures
        !vals_ok(layout, vals),
    decreases layout.len(),
{
    if layout.len() > 0 && vals.len() > 0 {
        if field_error(layout[0], vals[0] as int) is None {
            lemma_first_error_some(layout.drop_first(), vals.drop_first());
            if vals_ok(layout, vals) {
                assert(vals_ok(layout.drop_first(), vals.drop_first())) by {
                    assert forall|i: int| 0 <= i < layout.drop_first().len() implies in_width(
                        layout.drop_first()[i],
                        #[trigger] vals.drop_first()[i] as int,
                    ) && field_error(layout.drop_first()[i], vals.drop_first()[i] as int) is None by {
                        assert(vals.drop_first()[i] == vals[i + 1]);
                        assert(layout.drop_first()[i] == layout[i + 1]);
                    }
                }
            }
        }
    }
}

} // verus!
