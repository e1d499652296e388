//! Hex escaping of byte buffers and the table of well-known intent extra keys.

use vstd::prelude::*;
use vstd::string::StringExecFns;

verus! {

/// The character for one hex nibble, lowercase.
pub open spec fn hex_digit_char(v: u8) -> char {
    if v == 0 {
        '0'
    } else if v == 1 {
        '1'
    } else if v == 2 {
        '2'
    } else if v == 3 {
        '3'
    } else if v == 4 {
        '4'
    } else if v == 5 {
        '5'
    } else if v == 6 {
        '6'
    } else if v == 7 {
        '7'
    } else if v == 8 {
        '8'
    } else if v == 9 {
        '9'
    } else if v == 10 {
        'a'
    } else if v == 11 {
        'b'
    } else if v == 12 {
        'c'
    } else if v == 13 {
        'd'
    } else if v == 14 {
        'e'
    } else {
        'f'
    }
}

/// One byte in the `\xHH` escape form, lowercase digits.
pub open spec fn hex_escape_byte(b: u8) -> Seq<char> {
    seq!['\\', 'x', hex_digit_char(b / 16), hex_digit_char(b % 16)]
}

/// A whole buffer in the `\xHH` escape form, bytes in order, no separators.
pub open spec fn hex_escape(bytes: Seq<u8>) -> Seq<char>
    decreases bytes.len(),
{
    if bytes.len() == 0 {
        Seq::<char>::empty()
    } else {
        hex_escape(bytes.drop_last()) + hex_escape_byte(bytes.last())
    }
}

fn hex_digit_str(v: u8) -> (r: &'static str)
    requires
        v < 16,
    ensures
        r@ == seq![hex_digit_char(v)],
{
    proof {
        reveal_strlit("0");
        reveal_strlit("1");
        reveal_strlit("2");
        reveal_strlit("3");
        reveal_strlit("4");
        reveal_strlit("5");
        reveal_strlit("6");
        reveal_strlit("7");
        reveal_strlit("8");
        reveal_strlit("9");
        reveal_strlit("a");
        reveal_strlit("b");
        reveal_strlit("c");
        reveal_strlit("d");
        reveal_strlit("e");
        reveal_strlit("f");
    }
    let r: &'static str = if v == 0 {
        "0"
    } else if v == 1 {
        "1"
    } else if v == 2 {
        "2"
    } else if v == 3 {
        "3"
    } else if v == 4 {
        "4"
    } else if v == 5 {
        "5"
    } else if v == 6 {
        "6"
    } else if v == 7 {
        "7"
    } else if v == 8 {
        "8"
    } else if v == 9 {
        "9"
    } else if v == 10 {
        "a"
    } else if v == 11 {
        "b"
    } else if v == 12 {
        "c"
    } else if v == 13 {
        "d"
    } else if v == 14 {
        "e"
    } else {
        "f"
    };
    proof {
        assert(r@ =~= seq![hex_digit_char(v)]);
    }
    r
}

/// Encodes bytes into a hex string like `\x41\x42\x43`.
pub fn encode_hex(bytes: &[u8]) -> (r: String)
    ensures
        r@ == hex_escape(bytes@),
{
    proof {
        reveal_strlit("\\x");
    }
    let mut out = String::new();
    let mut i: usize = 0;
    while i < bytes.len()
        invariant
            i <= bytes@.len(),
            out@ == hex_escape(bytes@.take(i as int)),
        decreases bytes@.len() - i,
    {
        let b = bytes[i];
        out.append("\\x");
        out.append(hex_digit_str(b / 16));
        out.append(hex_digit_str(b % 16));
        proof {
            reveal_strlit("\\x");
            assert(("\\x")@.len() == 2);
            assert(("\\x")@[0] == '\\');
            assert(("\\x")@[1] == 'x');
            assert(("\\x")@ + seq![hex_digit_char(b / 16)] + seq![hex_digit_char(b % 16)]
                =~= hex_escape_byte(b));
            assert(bytes@.take(i + 1).drop_last() =~= bytes@.take(i as int));
            assert(bytes@.take(i + 1).last() == b);
            assert(hex_escape(bytes@.take(i + 1)) == hex_escape(bytes@.take(i as int))
                + hex_escape_byte(b));
            assert(out@ =~= hex_escape(bytes@.take(i + 1)));
        }
        i += 1;
    }
    proof {
        assert(bytes@.take(bytes@.len() as int) =~= bytes@);
    }
    out
}

pub const COMMON_EXTRA_KEY_COUNT: usize = 14;

/// The well-known extra keys with their type tags, the fixed table that the
/// mutators draw from alongside the template's own keys.
pub open spec fn spec_common_extra_key(i: int) -> (Seq<char>, Seq<char>) {
    if i == 0 {
        (("android.intent.extra.CC")@, ("StringArray")@)
    } else if i == 1 {
        (("android.intent.extra.COMPONENT_NAME")@, ("ComponentName")@)
    } else if i == 2 {
        (("android.intent.extra.EMAIL")@, ("StringArray")@)
    } else if i == 3 {
        (("android.intent.extra.HTML_TEXT")@, ("String")@)
    } else if i == 4 {
        (("android.intent.extra.INDEX")@, ("Int")@)
    } else if i == 5 {
        (("android.intent.extra.MIME_TYPES")@, ("StringArray")@)
    } else if i == 6 {
        (("android.intent.extra.PACKAGE_NAME")@, ("String")@)
    } else if i == 7 {
        (("android.intent.extra.PHONE_NUMBER")@, ("String")@)
    } else if i == 8 {
        (("android.intent.extra.QUICK_VIEW_FEATURES")@, ("StringArray")@)
    } else if i == 9 {
        (("android.intent.extra.STREAM")@, ("URI")@)
    } else if i == 10 {
        (("android.intent.extra.SUBJECT")@, ("String")@)
    } else if i == 11 {
        (("android.intent.extra.TEXT")@, ("String")@)
    } else if i == 12 {
        (("android.intent.extra.TITLE")@, ("String")@)
    } else {
        (("android.intent.extra.UID")@, ("Int")@)
    }
}

/// The common extra key and type tag at position `i` of the table.
pub fn common_extra_key(i: usize) -> (r: (String, String))
    requires
        i < 14,
    ensures
        r.0@ == spec_common_extra_key(i as int).0,
        r.1@ == spec_common_extra_key(i as int).1,
{
    if i == 0 {
        (String::from_str("android.intent.extra.CC"), String::from_str("StringArray"))
    } else if i == 1 {
        (String::from_str("android.intent.extra.COMPONENT_NAME"), String::from_str("ComponentName"))
    } else if i == 2 {
        (String::from_str("android.intent.extra.EMAIL"), String::from_str("StringArray"))
    } else if i == 3 {
        (String::from_str("android.intent.extra.HTML_TEXT"), String::from_str("String"))
    } else if i == 4 {
        (String::from_str("android.intent.extra.INDEX"), String::from_str("Int"))
    } else if i == 5 {
        (String::from_str("android.intent.extra.MIME_TYPES"), String::from_str("StringArray"))
    } else if i == 6 {
        (String::from_str("android.intent.extra.PACKAGE_NAME"), String::from_str("String"))
    } else if i == 7 {
        (String::from_str("android.intent.extra.PHONE_NUMBER"), String::from_str("String"))
    } else if i == 8 {
        (String::from_str("android.intent.extra.QUICK_VIEW_FEATURES"), String::from_str("StringArray"))
    } else if i == 9 {
        (String::from_str("android.intent.extra.STREAM"), String::from_str("URI"))
    } else if i == 10 {
        (String::from_str("android.intent.extra.SUBJECT"), String::from_str("String"))
    } else if i == 11 {
        (String::from_str("android.intent.extra.TEXT"), String::from_str("String"))
    } else if i == 12 {
        (String::from_str("android.intent.extra.TITLE"), String::from_str("String"))
    } else {
        (String::from_str("android.intent.extra.UID"), String::from_str("Int"))
    }
}

} // verus!
