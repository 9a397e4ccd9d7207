//! Laws of the scheme file format: what reading gives back of writing.
use vstd::prelude::*;

use crate::layout::{decode_fields, LayoutError};
use crate::scheme::{
    ExtendedOptions, Scheme, extended_bytes, extended_from_bytes, extended_options_default, extended_options_layout, extended_options_to_raw, extended_options_valid, lemma_extended_options_default_valid, lemma_extended_options_layout_ok, lemma_extended_options_raw_canonical, lemma_extended_options_raw_roundtrip, lemma_extended_options_size, lemma_scheme_bytes_len, lemma_scheme_options_layout_ok, lemma_scheme_options_raw_roundtrip, lemma_scheme_options_size, lemma_scheme_options_typed_ok, lemma_settings_from_ok, lemma_settings_roundtrip, lemma_standard_weapons_list_inverse, lemma_standard_weapons_list_roundtrip, lemma_super_weapons_list_inverse, lemma_super_weapons_list_roundtrip, magic_error, options_bytes, padded_extended, scheme_bytes, scheme_decode, scheme_head, scheme_options_layout, scheme_options_to_raw, scheme_valid, settings_bytes, settings_from, standard_weapons_list, super_weapons_default, super_weapons_list, super_weapons_ok,
};

verus! {

proof fn lemma_scheme_bytes_parts(s: Scheme)
    ensures
        ({
            let h = scheme_head();
            let ob = options_bytes(s.options);
            let wb = settings_bytes(standard_weapons_list(s.weapons));
            let sb = settings_bytes(super_weapons_list(s.super_weapons));
            let eb = extended_bytes(s.extended_options);
            &&& scheme_bytes(s) == h + ob + (wb + sb + eb)
            &&& scheme_bytes(s) == (h + ob) + wb + (sb + eb)
            &&& scheme_bytes(s) == (h + ob + wb) + sb + eb
            &&& scheme_bytes(s) == h + (ob + wb + sb + eb)
        }),
{
    let h = scheme_head();
    let ob = options_bytes(s.options);
    let wb = settings_bytes(standard_weapons_list(s.weapons));
    let sb = settings_bytes(super_weapons_list(s.super_weapons));
    let eb = extended_bytes(s.extended_options);
    assert(scheme_bytes(s) =~= h + ob + (wb + sb + eb));
    assert(scheme_bytes(s) =~= (h + ob) + wb + (sb + eb));
    assert(scheme_bytes(s) =~= (h + ob + wb) + sb + eb);
    assert(scheme_bytes(s) =~= h + (ob + wb + sb + eb));
}

proof fn lemma_scheme_bytes_options(s: Scheme)
    ensures
        decode_fields(scheme_options_layout(), scheme_bytes(s), 5) == Ok::<Seq<i64>, LayoutError>(
            scheme_options_to_raw(s.options),
        ),
{
    lemma_scheme_options_layout_ok();
    lemma_scheme_options_typed_ok(s.options);
    lemma_scheme_bytes_parts(s);
    crate::layout::lemma_decode_encode(
        scheme_options_layout(),
        scheme_options_to_raw(s.options),
        scheme_head(),
        settings_bytes(standard_weapons_list(s.weapons)) + settings_bytes(
            super_weapons_list(s.super_weapons),
        ) + extended_bytes(s.extended_options),
    );
    assert(scheme_head().len() == 5);
}

proof fn lemma_scheme_bytes_weapons(s: Scheme)
    requires
        scheme_valid(s),
    ensures
        settings_from(scheme_bytes(s), 41, 45) == standard_weapons_list(s.weapons),
        settings_from(scheme_bytes(s), 221, 19) == super_weapons_list(s.super_weapons),
{
    lemma_scheme_options_layout_ok();
    lemma_scheme_options_size();
    lemma_scheme_options_raw_roundtrip(s.options);
    crate::layout::lemma_encode_len(scheme_options_layout(), scheme_options_to_raw(s.options));
    lemma_standard_weapons_list_roundtrip(s.weapons);
    lemma_super_weapons_list_roundtrip(s.super_weapons);
    lemma_scheme_bytes_parts(s);
    let head = scheme_head() + options_bytes(s.options);
    assert(head.len() == 41);
    lemma_settings_roundtrip(
        standard_weapons_list(s.weapons),
        head,
        settings_bytes(super_weapons_list(s.super_weapons)) + extended_bytes(s.extended_options),
    );
    lemma_settings_roundtrip(
        super_weapons_list(s.super_weapons),
        head + settings_bytes(standard_weapons_list(s.weapons)),
        extended_bytes(s.extended_options),
    );
}

proof fn lemma_scheme_bytes_extended(s: Scheme)
    requires
        scheme_valid(s),
    ensures
        scheme_bytes(s).subrange(297, 407) == extended_bytes(s.extended_options),
        padded_extended(scheme_bytes(s).subrange(297, 407)) == extended_bytes(s.extended_options),
        decode_fields(extended_options_layout(), extended_bytes(s.extended_options), 0) == Ok::<
            Seq<i64>,
            LayoutError,
        >(extended_options_to_raw(s.extended_options)),
{
    lemma_scheme_bytes_len(s);
    lemma_extended_options_layout_ok();
    lemma_extended_options_size();
    lemma_extended_options_raw_roundtrip(s.extended_options);
    crate::layout::lemma_encode_len(
        extended_options_layout(),
        extended_options_to_raw(s.extended_options),
    );
    lemma_extended_options_raw_roundtrip(extended_options_default());
    crate::layout::lemma_encode_len(
        extended_options_layout(),
        extended_options_to_raw(extended_options_default()),
    );
    crate::layout::lemma_decode_encode(
        extended_options_layout(),
        extended_options_to_raw(s.extended_options),
        Seq::empty(),
        Seq::empty(),
    );
    let eb = extended_bytes(s.extended_options);
    assert(Seq::<u8>::empty() + eb + Seq::<u8>::empty() =~= eb);
    assert(scheme_bytes(s).subrange(297, 407) =~= eb);
    assert(padded_extended(eb) =~= eb);
}

/// Reading a written scheme gives it back: for every writable scheme,
/// decoding its version 3 file yields the scheme.
#[verifier::rlimit(100)]
pub proof fn lemma_scheme_roundtrip(s: Scheme)
    requires
        scheme_valid(s),
    ensures
        scheme_decode(scheme_bytes(s)) == Ok::<Scheme, LayoutError>(s),
{
    reveal(scheme_decode);
    let b = scheme_bytes(s);
    lemma_scheme_bytes_len(s);
    lemma_scheme_bytes_options(s);
    lemma_scheme_bytes_weapons(s);
    lemma_scheme_bytes_extended(s);
    lemma_scheme_options_raw_roundtrip(s.options);
    lemma_extended_options_raw_roundtrip(s.extended_options);
    lemma_standard_weapons_list_roundtrip(s.weapons);
    lemma_super_weapons_list_roundtrip(s.super_weapons);
    assert(b[0] == 0x53u8 && b[1] == 0x43u8 && b[2] == 0x48u8 && b[3] == 0x4Du8);
    assert(magic_error(b) is None);
}

/// Every scheme read from a file can be written, so reading, writing and
/// reading again gives the same scheme.
pub proof fn lemma_scheme_decode_valid(b: Seq<u8>)
    requires
        scheme_decode(b) is Ok,
    ensures
        scheme_valid(scheme_decode(b)->Ok_0),
        scheme_decode(scheme_bytes(scheme_decode(b)->Ok_0)) == scheme_decode(b),
{
    reveal(scheme_decode);
    let s = scheme_decode(b)->Ok_0;
    let ver = b[4];
    lemma_settings_from_ok(b, 41, 45);
    lemma_standard_weapons_list_inverse(settings_from(b, 41, 45));
    if ver == 1 {
        assert(super_weapons_ok(super_weapons_default()));
    } else {
        lemma_settings_from_ok(b, 221, 19);
        lemma_super_weapons_list_inverse(settings_from(b, 221, 19));
    }
    lemma_extended_options_layout_ok();
    if ver == 3 {
        let eb = padded_extended(b.subrange(297, b.len() as int));
        crate::layout::lemma_decode_ok(extended_options_layout(), eb, 0);
        let ev = decode_fields(extended_options_layout(), eb, 0)->Ok_0;
        lemma_extended_options_raw_canonical(ev);
    } else {
        lemma_extended_options_default_valid();
    }
    lemma_scheme_roundtrip(s);
}

/// Reading the payload of a written scheme gives the scheme back.
pub proof fn lemma_payload_roundtrip(s: Scheme)
    requires
        scheme_valid(s),
    ensures
        scheme_decode(scheme_head() + scheme_bytes(s).subrange(5, 407)) == Ok::<
            Scheme,
            LayoutError,
        >(s),
{
    lemma_scheme_bytes_len(s);
    lemma_scheme_roundtrip(s);
    lemma_scheme_bytes_parts(s);
    let rest = options_bytes(s.options) + settings_bytes(standard_weapons_list(s.weapons))
        + settings_bytes(super_weapons_list(s.super_weapons)) + extended_bytes(s.extended_options);
    assert(scheme_head().len() == 5);
    assert(scheme_bytes(s).subrange(5, 407) =~= rest);
}

/// Reading the bytes of valid extended options gives them back.
pub proof fn lemma_extended_roundtrip(e: ExtendedOptions)
    requires
        extended_options_valid(e),
    ensures
        extended_from_bytes(extended_bytes(e)) == Ok::<ExtendedOptions, LayoutError>(e),
{
    lemma_extended_options_layout_ok();
    lemma_extended_options_size();
    lemma_extended_options_raw_roundtrip(e);
    crate::layout::lemma_decode_encode(
        extended_options_layout(),
        extended_options_to_raw(e),
        Seq::empty(),
        Seq::empty(),
    );
    assert(Seq::<u8>::empty() + extended_bytes(e) + Seq::<u8>::empty() =~= extended_bytes(e));
}

/// The default extended options are valid and their bytes read back as
/// the defaults.
pub proof fn lemma_extended_default_roundtrip()
    ensures
        extended_options_valid(extended_options_default()),
        extended_from_bytes(extended_bytes(extended_options_default())) == Ok::<
            ExtendedOptions,
            LayoutError,
        >(extended_options_default()),
{
    lemma_extended_options_default_valid();
    lemma_extended_roundtrip(extended_options_default());
}

} // verus!
