//! Grammar-aware mutation operators over the intent value. Every random
//! draw and every byte-havoc result enters as a plain argument, so each
//! operator is a deterministic, fully specified transformation; the caller
//! supplies the randomness and runs the havoc.

use vstd::prelude::*;
use vstd::string::StringExecFns;
use crate::intent_input::ExtraInput;
use crate::intent_input::ExtraType;
use crate::intent_input::IntentInput;
use crate::intent_input::MimeType;
use crate::intent_input::URIInput;
use crate::intent_input::URIScheme;
use crate::intent_input::URISuffix;
use crate::intent_input::variant_tag;
use crate::text::str_eq;
use crate::intent_input::DirectInput;
use crate::util::spec_common_extra_key;
use crate::util::common_extra_key;
use crate::util::COMMON_EXTRA_KEY_COUNT;

verus! {

/// Whether an operator changed the input.
#[derive(Clone, Copy, PartialEq, Eq, Structural, Debug)]
pub enum MutationOutcome {
    Mutated,
    Skipped,
}

/// The content bytes behind an extra value.
pub open spec fn spec_content(v: ExtraType) -> Seq<u8> {
    match v {
        ExtraType::URI(u) => u.content@,
        ExtraType::String(d) => d.buffer@,
        ExtraType::Boolean(d) => d.buffer@,
        ExtraType::Int(d) => d.buffer@,
        ExtraType::Long(d) => d.buffer@,
        ExtraType::Float(d) => d.buffer@,
        ExtraType::ComponentName(d) => d.buffer@,
        ExtraType::IntArray(d) => d.buffer@,
        ExtraType::IntArrayList(d) => d.buffer@,
        ExtraType::LongArray(d) => d.buffer@,
        ExtraType::LongArrayList(d) => d.buffer@,
        ExtraType::FloatArray(d) => d.buffer@,
        ExtraType::FloatArrayList(d) => d.buffer@,
        ExtraType::StringArray(d) => d.buffer@,
        ExtraType::StringArrayList(d) => d.buffer@,
    }
}

/// The buffer width that the variant's invariant fixes after mutation:
/// one byte for booleans, four for ints and floats, eight for longs.
pub open spec fn normalized_target(v: ExtraType) -> Option<int> {
    match v {
        ExtraType::Boolean(_) => Option::Some(1),
        ExtraType::Int(_) => Option::Some(4),
        ExtraType::Float(_) => Option::Some(4),
        ExtraType::Long(_) => Option::Some(8),
        _ => Option::None,
    }
}

/// A buffer resized to `n`: truncated, or zero-padded at the end.
pub open spec fn spec_resize(b: Seq<u8>, n: int) -> Seq<u8> {
    if b.len() >= n {
        b.take(n)
    } else {
        b + Seq::new((n - b.len()) as nat, |i: int| 0u8)
    }
}

/// The content after a havoc round: set to the havoc output, then brought
/// back to the variant's fixed width where it has one.
pub open spec fn spec_normalized_content(v: ExtraType, bytes: Seq<u8>) -> Seq<u8> {
    match normalized_target(v) {
        Option::Some(n) => spec_resize(bytes, n),
        Option::None => bytes,
    }
}

/// Replaces the extra's content with `bytes` and re-enforces the variant's
/// width invariant.
fn set_content_normalized(v: &mut ExtraType, bytes: Vec<u8>)
    ensures
        variant_tag(*final(v)) == variant_tag(*old(v)),
        spec_content(*final(v)) == spec_normalized_content(*old(v), bytes@),
        (match (*old(v), *final(v)) {
            (ExtraType::URI(u0), ExtraType::URI(u1)) => u1.scheme == u0.scheme && u1.suffix
                == u0.suffix,
            (ExtraType::URI(u0), _) => false,
            _ => true,
        }),
{
    match v {
        ExtraType::URI(u) => {
            u.content = bytes;
        },
        ExtraType::String(d) => {
            d.buffer = bytes;
        },
        ExtraType::Boolean(d) => {
            d.buffer = bytes;
            d.buffer.resize(1, 0u8);
            proof {
                assert(d.buffer@ =~= spec_resize(bytes@, 1));
            }
        },
        ExtraType::Int(d) => {
            d.buffer = bytes;
            d.buffer.resize(4, 0u8);
            proof {
                assert(d.buffer@ =~= spec_resize(bytes@, 4));
            }
        },
        ExtraType::Long(d) => {
            d.buffer = bytes;
            d.buffer.resize(8, 0u8);
            proof {
                assert(d.buffer@ =~= spec_resize(bytes@, 8));
            }
        },
        ExtraType::Float(d) => {
            d.buffer = bytes;
            d.buffer.resize(4, 0u8);
            proof {
                assert(d.buffer@ =~= spec_resize(bytes@, 4));
            }
        },
        ExtraType::ComponentName(d) => {
            d.buffer = bytes;
        },
        ExtraType::IntArray(d) => {
            d.buffer = bytes;
        },
        ExtraType::IntArrayList(d) => {
            d.buffer = bytes;
        },
        ExtraType::LongArray(d) => {
            d.buffer = bytes;
        },
        ExtraType::LongArrayList(d) => {
            d.buffer = bytes;
        },
        ExtraType::FloatArray(d) => {
            d.buffer = bytes;
        },
        ExtraType::FloatArrayList(d) => {
            d.buffer = bytes;
        },
        ExtraType::StringArray(d) => {
            d.buffer = bytes;
        },
        ExtraType::StringArrayList(d) => {
            d.buffer = bytes;
        },
    }
}

/// After a content havoc, the fixed-width variants hold exactly their
/// width: one byte for a boolean, four for an int or a float, eight for a
/// long.
pub proof fn lemma_normalized_widths(v: ExtraType, bytes: Seq<u8>)
    ensures
        v matches ExtraType::Boolean(_) ==> spec_normalized_content(v, bytes).len() == 1,
        v matches ExtraType::Int(_) ==> spec_normalized_content(v, bytes).len() == 4,
        v matches ExtraType::Float(_) ==> spec_normalized_content(v, bytes).len() == 4,
        v matches ExtraType::Long(_) ==> spec_normalized_content(v, bytes).len() == 8,
{
}

/// The fields that no mutation operator may touch: the receiver, the target
/// component, the action and the category stay the template-derived values.
pub open spec fn target_fields_unchanged(a: IntentInput, b: IntentInput) -> bool {
    &&& b.receiver_type == a.receiver_type
    &&& b.component_package == a.component_package
    &&& b.component_class == a.component_class
    &&& b.action == a.action
    &&& b.category == a.category
}

/// Toggles one of the low eight flag bits. Always mutates, and the flags
/// word always actually changes.
pub fn random_flag_mutate(input: &mut IntentInput, bit_choice: u64) -> (r: MutationOutcome)
    ensures
        r == MutationOutcome::Mutated,
        target_fields_unchanged(*old(input), *final(input)),
        final(input).flags == old(input).flags ^ (1u32 << (bit_choice % 8) as u32),
        final(input).flags != old(input).flags,
        final(input).data == old(input).data,
        final(input).mime_type == old(input).mime_type,
        final(input).extras == old(input).extras,
{
    let k: u32 = (bit_choice % 8) as u32;
    let bit: u32 = 1u32 << k;
    input.flags = input.flags ^ bit;
    proof {
        let f = old(input).flags;
        assert(f ^ (1u32 << k) != f) by (bit_vector)
            requires
                k < 8,
        ;
    }
    MutationOutcome::Mutated
}

/// Assigns the MIME type. A draw equal to the current type changes nothing
/// and is reported as skipped, so a mutation report always means a change.
pub fn random_mime_type_mutate(input: &mut IntentInput, mime: MimeType) -> (r: MutationOutcome)
    ensures
        target_fields_unchanged(*old(input), *final(input)),
        final(input).flags == old(input).flags,
        final(input).data == old(input).data,
        final(input).extras == old(input).extras,
        r == MutationOutcome::Skipped ==> *final(input) == *old(input),
        r == (if mime == old(input).mime_type {
            MutationOutcome::Skipped
        } else {
            MutationOutcome::Mutated
        }),
        final(input).mime_type == mime,
{
    if mime == input.mime_type {
        return MutationOutcome::Skipped;
    }
    input.mime_type = mime;
    MutationOutcome::Mutated
}

/// Mutates the data URI. On an input without data, a fresh URI with the
/// drawn scheme and suffix is installed and its content set to the havoc
/// output (the havoc ran on an empty buffer): the input changed, so the
/// result is a mutation. On an input with data, `choice` picks one of three
/// actions: reassign the scheme, reassign the suffix, or replace the content
/// with the havoc output; a scheme or suffix draw equal to the current value
/// changes nothing and is skipped.
pub fn random_data_mutate(
    input: &mut IntentInput,
    choice: u64,
    scheme: URIScheme,
    suffix: URISuffix,
    havoced: Vec<u8>,
    havoc_mutated: bool,
) -> (r: MutationOutcome)
    ensures
        target_fields_unchanged(*old(input), *final(input)),
        final(input).flags == old(input).flags,
        final(input).mime_type == old(input).mime_type,
        final(input).extras == old(input).extras,
        r == MutationOutcome::Skipped ==> *final(input) == *old(input),
        (match old(input).data {
            Option::None => {
                &&& final(input).data matches Option::Some(u) && u.scheme == scheme && u.suffix
                    == suffix && u.content@ == havoced@
                &&& r == MutationOutcome::Mutated
            },
            Option::Some(u0) => {
                if choice % 3 == 1 {
                    if scheme == u0.scheme {
                        &&& *final(input) == *old(input)
                        &&& r == MutationOutcome::Skipped
                    } else {
                        &&& final(input).data matches Option::Some(u) && u.scheme == scheme
                            && u.suffix == u0.suffix && u.content == u0.content
                        &&& r == MutationOutcome::Mutated
                    }
                } else if choice % 3 == 2 {
                    if suffix == u0.suffix {
                        &&& *final(input) == *old(input)
                        &&& r == MutationOutcome::Skipped
                    } else {
                        &&& final(input).data matches Option::Some(u) && u.scheme == u0.scheme
                            && u.suffix == suffix && u.content == u0.content
                        &&& r == MutationOutcome::Mutated
                    }
                } else if havoc_mutated {
                    &&& final(input).data matches Option::Some(u) && u.scheme == u0.scheme
                        && u.suffix == u0.suffix && u.content@ == havoced@
                    &&& r == MutationOutcome::Mutated
                } else {
                    &&& *final(input) == *old(input)
                    &&& r == MutationOutcome::Skipped
                }
            },
        }),
{
    match &mut input.data {
        Some(uri_input) => {
            let c = choice % 3;
            if c == 1 {
                if uri_input.scheme == scheme {
                    MutationOutcome::Skipped
                } else {
                    uri_input.scheme = scheme;
                    MutationOutcome::Mutated
                }
            } else if c == 2 {
                if uri_input.suffix == suffix {
                    MutationOutcome::Skipped
                } else {
                    uri_input.suffix = suffix;
                    MutationOutcome::Mutated
                }
            } else if havoc_mutated {
                uri_input.content = havoced;
                MutationOutcome::Mutated
            } else {
                MutationOutcome::Skipped
            }
        },
        None => {
            input.data = Some(URIInput { scheme, suffix, content: havoced });
            MutationOutcome::Mutated
        },
    }
}

/// Appends a freshly synthesized extra and runs one content havoc on it,
/// unless the input already holds ten extras, which leaves it untouched.
/// Appending changes the input, so the result is a mutation whatever the
/// inner havoc reported.
pub fn random_add_extra_mutate(
    input: &mut IntentInput,
    extra: ExtraInput,
    havoced: Vec<u8>,
    havoc_mutated: bool,
) -> (r: MutationOutcome)
    ensures
        target_fields_unchanged(*old(input), *final(input)),
        final(input).flags == old(input).flags,
        final(input).mime_type == old(input).mime_type,
        final(input).data == old(input).data,
        old(input).extras@.len() >= 10 ==> r == MutationOutcome::Skipped && *final(input) == *old(
            input,
        ),
        old(input).extras@.len() <= 10 ==> final(input).extras@.len() <= 10,
        old(input).extras@.len() < 10 ==> {
            &&& final(input).extras@.len() == old(input).extras@.len() + 1
            &&& final(input).extras@.take(old(input).extras@.len() as int) == old(input).extras@
            &&& final(input).extras@.last().key == extra.key
            &&& variant_tag(final(input).extras@.last().value) == variant_tag(extra.value)
            &&& spec_content(final(input).extras@.last().value) == (if havoc_mutated {
                spec_normalized_content(extra.value, havoced@)
            } else {
                spec_content(extra.value)
            })
            &&& r == MutationOutcome::Mutated
        },
{
    if input.extras.len() >= 10 {
        return MutationOutcome::Skipped;
    }
    let mut extra = extra;
    if havoc_mutated {
        set_content_normalized(&mut extra.value, havoced);
    }
    let ghost before = input.extras@;
    input.extras.push(extra);
    proof {
        assert(input.extras@.take(before.len() as int) =~= before);
    }
    MutationOutcome::Mutated
}

/// Replaces the key of the extra at the drawn position with the chosen key.
/// Skipped, and the input untouched, when there are no extras or the chosen
/// key equals the one already there.
pub fn random_extra_key_mutate(input: &mut IntentInput, index_choice: u64, key: String) -> (r:
    MutationOutcome)
    ensures
        target_fields_unchanged(*old(input), *final(input)),
        final(input).flags == old(input).flags,
        final(input).mime_type == old(input).mime_type,
        final(input).data == old(input).data,
        final(input).extras@.len() == old(input).extras@.len(),
        r == MutationOutcome::Skipped ==> *final(input) == *old(input),
        old(input).extras@.len() == 0 ==> r == MutationOutcome::Skipped,
        old(input).extras@.len() > 0 ==> {
            let i = (index_choice % (old(input).extras@.len() as u64)) as int;
            if old(input).extras@[i].key@ == key@ {
                r == MutationOutcome::Skipped
            } else {
                &&& r == MutationOutcome::Mutated
                &&& final(input).extras@[i].key == key
                &&& final(input).extras@[i].value == old(input).extras@[i].value
                &&& forall|k: int|
                    0 <= k < old(input).extras@.len() && k != i ==> final(input).extras@[k] == old(
                        input,
                    ).extras@[k]
            }
        },
{
    let n = input.extras.len();
    if n == 0 {
        return MutationOutcome::Skipped;
    }
    let i = (index_choice % (n as u64)) as usize;
    if input.extras[i].key == key {
        return MutationOutcome::Skipped;
    }
    let mut e = input.extras.remove(i);
    e.key = key;
    input.extras.insert(i, e);
    MutationOutcome::Mutated
}

/// Replaces the content of the extra at the drawn position with the havoc
/// output and re-enforces the variant's width invariant. Skipped, and the
/// input untouched, when there are no extras or the havoc did nothing.
pub fn random_extra_content_mutate(
    input: &mut IntentInput,
    index_choice: u64,
    havoced: Vec<u8>,
    havoc_mutated: bool,
) -> (r: MutationOutcome)
    ensures
        target_fields_unchanged(*old(input), *final(input)),
        final(input).flags == old(input).flags,
        final(input).mime_type == old(input).mime_type,
        final(input).data == old(input).data,
        final(input).extras@.len() == old(input).extras@.len(),
        r == MutationOutcome::Skipped ==> *final(input) == *old(input),
        r == MutationOutcome::Skipped <==> old(input).extras@.len() == 0 || !havoc_mutated,
        old(input).extras@.len() > 0 && havoc_mutated ==> {
            let i = (index_choice % (old(input).extras@.len() as u64)) as int;
            &&& variant_tag(final(input).extras@[i].value) == variant_tag(
                old(input).extras@[i].value,
            )
            &&& final(input).extras@[i].key == old(input).extras@[i].key
            &&& spec_content(final(input).extras@[i].value) == spec_normalized_content(
                old(input).extras@[i].value,
                havoced@,
            )
            &&& forall|k: int|
                0 <= k < old(input).extras@.len() && k != i ==> final(input).extras@[k] == old(
                    input,
                ).extras@[k]
        },
{
    let n = input.extras.len();
    if n == 0 || !havoc_mutated {
        return MutationOutcome::Skipped;
    }
    let i = (index_choice % (n as u64)) as usize;
    let mut e = input.extras.remove(i);
    set_content_normalized(&mut e.value, havoced);
    input.extras.insert(i, e);
    MutationOutcome::Mutated
}

/// Reassigns the scheme of the extra at the drawn position when that extra
/// is a URI and the drawn scheme differs from its current one; otherwise
/// Skipped with the input untouched.
pub fn random_extra_scheme_mutate(input: &mut IntentInput, index_choice: u64, scheme: URIScheme)
    -> (r: MutationOutcome)
    ensures
        target_fields_unchanged(*old(input), *final(input)),
        final(input).flags == old(input).flags,
        final(input).mime_type == old(input).mime_type,
        final(input).data == old(input).data,
        final(input).extras@.len() == old(input).extras@.len(),
        r == MutationOutcome::Skipped ==> *final(input) == *old(input),
        old(input).extras@.len() == 0 ==> r == MutationOutcome::Skipped,
        old(input).extras@.len() > 0 ==> {
            let i = (index_choice % (old(input).extras@.len() as u64)) as int;
            match old(input).extras@[i].value {
                ExtraType::URI(u0) => {
                    if u0.scheme == scheme {
                        r == MutationOutcome::Skipped
                    } else {
                        &&& r == MutationOutcome::Mutated
                        &&& final(input).extras@[i].key == old(input).extras@[i].key
                        &&& final(input).extras@[i].value matches ExtraType::URI(u) && u.scheme
                            == scheme && u.suffix == u0.suffix && u.content == u0.content
                        &&& forall|k: int|
                            0 <= k < old(input).extras@.len() && k != i
                                ==> final(input).extras@[k] == old(input).extras@[k]
                    }
                },
                _ => r == MutationOutcome::Skipped,
            }
        },
{
    let n = input.extras.len();
    if n == 0 {
        return MutationOutcome::Skipped;
    }
    let i = (index_choice % (n as u64)) as usize;
    let differs = match &input.extras[i].value {
        ExtraType::URI(u) => u.scheme != scheme,
        _ => false,
    };
    if !differs {
        return MutationOutcome::Skipped;
    }
    let mut e = input.extras.remove(i);
    match &mut e.value {
        ExtraType::URI(u) => {
            u.scheme = scheme;
        },
        _ => {},
    }
    input.extras.insert(i, e);
    MutationOutcome::Mutated
}

/// Reassigns the suffix of the extra at the drawn position when that extra
/// is a URI and the drawn suffix differs from its current one; otherwise
/// Skipped with the input untouched.
pub fn random_extra_suffix_mutate(input: &mut IntentInput, index_choice: u64, suffix: URISuffix)
    -> (r: MutationOutcome)
    ensures
        target_fields_unchanged(*old(input), *final(input)),
        final(input).flags == old(input).flags,
        final(input).mime_type == old(input).mime_type,
        final(input).data == old(input).data,
        final(input).extras@.len() == old(input).extras@.len(),
        r == MutationOutcome::Skipped ==> *final(input) == *old(input),
        old(input).extras@.len() == 0 ==> r == MutationOutcome::Skipped,
        old(input).extras@.len() > 0 ==> {
            let i = (index_choice % (old(input).extras@.len() as u64)) as int;
            match old(input).extras@[i].value {
                ExtraType::URI(u0) => {
                    if u0.suffix == suffix {
                        r == MutationOutcome::Skipped
                    } else {
                        &&& r == MutationOutcome::Mutated
                        &&& final(input).extras@[i].key == old(input).extras@[i].key
                        &&& final(input).extras@[i].value matches ExtraType::URI(u) && u.scheme
                            == u0.scheme && u.suffix == suffix && u.content == u0.content
                        &&& forall|k: int|
                            0 <= k < old(input).extras@.len() && k != i
                                ==> final(input).extras@[k] == old(input).extras@[k]
                    }
                },
                _ => r == MutationOutcome::Skipped,
            }
        },
{
    let n = input.extras.len();
    if n == 0 {
        return MutationOutcome::Skipped;
    }
    let i = (index_choice % (n as u64)) as usize;
    let differs = match &input.extras[i].value {
        ExtraType::URI(u) => u.suffix != suffix,
        _ => false,
    };
    if !differs {
        return MutationOutcome::Skipped;
    }
    let mut e = input.extras.remove(i);
    match &mut e.value {
        ExtraType::URI(u) => {
            u.suffix = suffix;
        },
        _ => {},
    }
    input.extras.insert(i, e);
    MutationOutcome::Mutated
}

/// Picks a key and type-tag pair from the union of the template's known
/// keys and the common key table, by the remainder of the draw.
pub fn choose_extra_key(known: &Vec<(String, String)>, draw: u64) -> (r: (String, String))
    requires
        known@.len() + 14 <= usize::MAX,
    ensures
        ({
            let t = known@.len() as int + 14;
            let k = (draw as int) % t;
            if k < known@.len() {
                r.0@ == known@[k].0@ && r.1@ == known@[k].1@
            } else {
                r.0@ == spec_common_extra_key(k - known@.len()).0 && r.1@ == spec_common_extra_key(
                    k - known@.len(),
                ).1
            }
        }),
{
    let n = known.len();
    let total = n + COMMON_EXTRA_KEY_COUNT;
    let idx = (draw % (total as u64)) as usize;
    if idx < n {
        let p = &known[idx];
        (p.0.clone(), p.1.clone())
    } else {
        common_extra_key(idx - n)
    }
}

/// Which extra variant a template type tag selects, as the variant's
/// canonical tag number; an unrecognized tag falls back to the boolean
/// variant.
pub open spec fn spec_variant_for_tag(tag: Seq<char>) -> u8 {
    if tag == ("Boolean")@ {
        1
    } else if tag == ("Float")@ {
        4
    } else if tag == ("Int")@ {
        2
    } else if tag == ("Long")@ {
        3
    } else if tag == ("String")@ {
        0
    } else if tag == ("URI")@ {
        5
    } else if tag == ("ComponentName")@ {
        6
    } else if tag == ("IntArray")@ {
        7
    } else if tag == ("IntArrayList")@ {
        8
    } else if tag == ("LongArray")@ {
        9
    } else if tag == ("LongArrayList")@ {
        10
    } else if tag == ("FloatArray")@ {
        11
    } else if tag == ("FloatArrayList")@ {
        12
    } else if tag == ("StringArray")@ {
        13
    } else if tag == ("StringArrayList")@ {
        14
    } else {
        1
    }
}

/// Builds a fresh extra for the chosen key and type tag, with an empty
/// buffer; a URI extra takes the drawn scheme and suffix.
pub fn extra_from_tag(key: String, tag: &str, scheme: URIScheme, suffix: URISuffix) -> (r:
    ExtraInput)
    ensures
        r.key == key,
        variant_tag(r.value) == spec_variant_for_tag(tag@),
        spec_content(r.value) == Seq::<u8>::empty(),
        (r.value matches ExtraType::URI(u) ==> u.scheme == scheme && u.suffix == suffix),
{
    let value = if str_eq(tag, "Boolean") {
        ExtraType::Boolean(DirectInput { buffer: Vec::new() })
    } else if str_eq(tag, "Float") {
        ExtraType::Float(DirectInput { buffer: Vec::new() })
    } else if str_eq(tag, "Int") {
        ExtraType::Int(DirectInput { buffer: Vec::new() })
    } else if str_eq(tag, "Long") {
        ExtraType::Long(DirectInput { buffer: Vec::new() })
    } else if str_eq(tag, "String") {
        ExtraType::String(DirectInput { buffer: Vec::new() })
    } else if str_eq(tag, "URI") {
        ExtraType::URI(URIInput { scheme, suffix, content: Vec::new() })
    } else if str_eq(tag, "ComponentName") {
        ExtraType::ComponentName(DirectInput { buffer: Vec::new() })
    } else if str_eq(tag, "IntArray") {
        ExtraType::IntArray(DirectInput { buffer: Vec::new() })
    } else if str_eq(tag, "IntArrayList") {
        ExtraType::IntArrayList(DirectInput { buffer: Vec::new() })
    } else if str_eq(tag, "LongArray") {
        ExtraType::LongArray(DirectInput { buffer: Vec::new() })
    } else if str_eq(tag, "LongArrayList") {
        ExtraType::LongArrayList(DirectInput { buffer: Vec::new() })
    } else if str_eq(tag, "FloatArray") {
        ExtraType::FloatArray(DirectInput { buffer: Vec::new() })
    } else if str_eq(tag, "FloatArrayList") {
        ExtraType::FloatArrayList(DirectInput { buffer: Vec::new() })
    } else if str_eq(tag, "StringArray") {
        ExtraType::StringArray(DirectInput { buffer: Vec::new() })
    } else if str_eq(tag, "StringArrayList") {
        ExtraType::StringArrayList(DirectInput { buffer: Vec::new() })
    } else {
        ExtraType::Boolean(DirectInput { buffer: Vec::new() })
    };
    ExtraInput { key, value }
}


/// One drawn mutation: the operator together with every random draw and
/// havoc result it consumes.
pub enum MutationChoice {
    Flag { bit_choice: u64 },
    Data { choice: u64, scheme: URIScheme, suffix: URISuffix, havoced: Vec<u8>, havoc_mutated: bool },
    Mime { mime: MimeType },
    AddExtra { extra: ExtraInput, havoced: Vec<u8>, havoc_mutated: bool },
    ExtraKey { index_choice: u64, key: String },
    ExtraContent { index_choice: u64, havoced: Vec<u8>, havoc_mutated: bool },
    ExtraScheme { index_choice: u64, scheme: URIScheme },
    ExtraSuffix { index_choice: u64, suffix: URISuffix },
}

/// Applies one drawn mutation. Whatever the operator: the receiver, the
/// component, the action and the category are untouched, and an input that
/// holds at most ten extras still holds at most ten afterwards.
pub fn apply_mutation(input: &mut IntentInput, choice: MutationChoice) -> (r: MutationOutcome)
    ensures
        target_fields_unchanged(*old(input), *final(input)),
        old(input).extras@.len() <= 10 ==> final(input).extras@.len() <= 10,
{
    match choice {
        MutationChoice::Flag { bit_choice } => random_flag_mutate(input, bit_choice),
        MutationChoice::Data { choice, scheme, suffix, havoced, havoc_mutated } => random_data_mutate(
            input,
            choice,
            scheme,
            suffix,
            havoced,
            havoc_mutated,
        ),
        MutationChoice::Mime { mime } => random_mime_type_mutate(input, mime),
        MutationChoice::AddExtra { extra, havoced, havoc_mutated } => random_add_extra_mutate(
            input,
            extra,
            havoced,
            havoc_mutated,
        ),
        MutationChoice::ExtraKey { index_choice, key } => random_extra_key_mutate(
            input,
            index_choice,
            key,
        ),
        MutationChoice::ExtraContent { index_choice, havoced, havoc_mutated } => random_extra_content_mutate(
            input,
            index_choice,
            havoced,
            havoc_mutated,
        ),
        MutationChoice::ExtraScheme { index_choice, scheme } => random_extra_scheme_mutate(
            input,
            index_choice,
            scheme,
        ),
        MutationChoice::ExtraSuffix { index_choice, suffix } => random_extra_suffix_mutate(
            input,
            index_choice,
            suffix,
        ),
    }
}

} // verus!
