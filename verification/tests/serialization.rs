//! Serialization of intents: command lines, extras, identifiers, hashes.

use intent_fuzz::intent_input::DirectInput;
use intent_fuzz::intent_input::ExtraInput;
use intent_fuzz::intent_input::ExtraType;
use intent_fuzz::intent_input::IntentInput;
use intent_fuzz::intent_input::MimeType;
use intent_fuzz::intent_input::ReceiverType;
use intent_fuzz::intent_input::URIInput;
use intent_fuzz::intent_input::URIScheme;
use intent_fuzz::intent_input::URISuffix;
use intent_fuzz::floatfmt::float_text;
use intent_fuzz::text::i32_text;
use intent_fuzz::text::i64_text;
use intent_fuzz::text::u64_text;
use intent_fuzz::text::str_contains;
use intent_fuzz::util::encode_hex;

fn base_input() -> IntentInput {
    IntentInput {
        receiver_type: ReceiverType::Activity,
        component_package: "p".to_string(),
        component_class: "/.C".to_string(),
        action: "A".to_string(),
        category: String::new(),
        data: None,
        mime_type: MimeType::TextPlain,
        flags: 0,
        extras: Vec::new(),
    }
}

fn simple_input() -> IntentInput {
    IntentInput {
        receiver_type: ReceiverType::Activity,
        component_package: "p".to_string(),
        component_class: ".C".to_string(),
        action: "A".to_string(),
        category: String::new(),
        data: None,
        mime_type: MimeType::TextPlain,
        flags: 0,
        extras: Vec::new(),
    }
}

#[test]
fn shell_command_shape() {
    let i = simple_input();
    assert_eq!(
        i.shell_command(),
        "am start -n 'p/.C' -a 'A' -t 'text/plain' --grant-read-uri-permission  "
    );
}

#[test]
fn shell_command_broadcast_with_category() {
    let mut i = simple_input();
    i.receiver_type = ReceiverType::BroadcastReceiver;
    i.category = "android.intent.category.DEFAULT".to_string();
    let cmd = i.shell_command();
    assert!(cmd.starts_with("am broadcast -n 'p/.C' -a 'A' -t 'text/plain'"));
    assert!(cmd.contains(" -c android.intent.category.DEFAULT"));
}

#[test]
fn shell_command_is_deterministic() {
    let i = simple_input();
    assert_eq!(i.shell_command(), i.shell_command());
}

#[test]
fn boolean_extra_false_and_true() {
    let mut i = simple_input();
    i.extras.push(ExtraInput {
        key: "k".to_string(),
        value: ExtraType::Boolean(DirectInput { buffer: vec![0x00] }),
    });
    assert!(i.shell_command().ends_with(" --ez 'k' $'false'"));
    i.extras[0].value = ExtraType::Boolean(DirectInput { buffer: vec![0x01] });
    assert!(i.shell_command().ends_with(" --ez 'k' $'true'"));
}

#[test]
fn boolean_extra_empty_buffer_is_true() {
    let e = ExtraInput {
        key: "k".to_string(),
        value: ExtraType::Boolean(DirectInput { buffer: vec![] }),
    };
    assert_eq!(e.command_args(1).unwrap(), " --ez 'k' $'true'");
}

#[test]
fn int_extra_little_endian() {
    let e = ExtraInput {
        key: "k".to_string(),
        value: ExtraType::Int(DirectInput { buffer: vec![0x39, 0x30, 0x00, 0x00] }),
    };
    assert_eq!(e.command_args(1).unwrap(), " --ei 'k' $'12345'");
}

#[test]
fn int_extra_wrong_width_is_omitted() {
    let e = ExtraInput {
        key: "k".to_string(),
        value: ExtraType::Int(DirectInput { buffer: vec![0x39, 0x30] }),
    };
    assert!(e.command_args(1).is_none());
}

#[test]
fn long_extra_negative() {
    let e = ExtraInput {
        key: "k".to_string(),
        value: ExtraType::Long(DirectInput { buffer: vec![0xff; 8] }),
    };
    assert_eq!(e.command_args(1).unwrap(), " --el 'k' $'-1'");
}

#[test]
fn string_extra_hex_escaped() {
    let e = ExtraInput {
        key: "k".to_string(),
        value: ExtraType::String(DirectInput { buffer: vec![0x41, 0x42] }),
    };
    assert_eq!(e.command_args(1).unwrap(), " --es 'k' $'\\x41\\x42'");
}

#[test]
fn component_name_extra_hex_escaped() {
    let e = ExtraInput {
        key: "k".to_string(),
        value: ExtraType::ComponentName(DirectInput { buffer: vec![0x61] }),
    };
    assert_eq!(e.command_args(1).unwrap(), " --ecn 'k' $'\\x61'");
}

#[test]
fn string_array_zero_bytes_become_commas() {
    let e = ExtraInput {
        key: "k".to_string(),
        value: ExtraType::StringArray(DirectInput { buffer: vec![0x41, 0x00, 0x42] }),
    };
    assert_eq!(e.command_args(1).unwrap(), " --esa 'k' $'\\x41\\x2c\\x42'");
}

#[test]
fn int_array_chunks_and_padding() {
    let e = ExtraInput {
        key: "k".to_string(),
        value: ExtraType::IntArray(DirectInput {
            buffer: vec![0x39, 0x30, 0x00, 0x00, 0x01],
        }),
    };
    // the trailing short chunk is zero-padded to four bytes
    assert_eq!(e.command_args(1).unwrap(), " --eia 'k' $'12345,1'");
}

#[test]
fn empty_numeric_array_omits_fragment() {
    let mut i = simple_input();
    i.extras.push(ExtraInput {
        key: "k".to_string(),
        value: ExtraType::IntArray(DirectInput { buffer: vec![] }),
    });
    assert_eq!(
        i.shell_command(),
        "am start -n 'p/.C' -a 'A' -t 'text/plain' --grant-read-uri-permission  "
    );
    i.extras[0].value = ExtraType::LongArrayList(DirectInput { buffer: vec![] });
    assert!(!i.shell_command().contains("--e"));
    i.extras[0].value = ExtraType::FloatArray(DirectInput { buffer: vec![] });
    assert!(!i.shell_command().contains("--e"));
}

#[test]
fn uri_extra_uses_slot_number() {
    let mut i = simple_input();
    i.extras.push(ExtraInput {
        key: "p".to_string(),
        value: ExtraType::String(DirectInput { buffer: vec![0x41] }),
    });
    i.extras.push(ExtraInput {
        key: "u".to_string(),
        value: ExtraType::URI(URIInput {
            scheme: URIScheme::File,
            suffix: URISuffix::TXT,
            content: vec![],
        }),
    });
    let cmd = i.shell_command();
    assert!(cmd.contains(" --eu 'u' $'file:///data/local/tmp/extra_input_2.txt'"));
}

#[test]
fn file_uri_data_identifier() {
    let mut i = simple_input();
    i.data = Some(URIInput {
        scheme: URIScheme::File,
        suffix: URISuffix::PNG,
        content: vec![0u8; 10],
    });
    let cmd = i.shell_command();
    assert!(cmd.contains(" -d 'file:///data/local/tmp/extra_input_0.png'"));
}

#[test]
fn content_uri_identifier() {
    let u = URIInput { scheme: URIScheme::Content, suffix: URISuffix::PDF, content: vec![] };
    assert_eq!(
        u.identifier(3),
        "content://org.gts3.jnifuzz.contentprovider.provider/external_files/extra_input_3.pdf"
    );
}

#[test]
fn other_uri_identifier_is_hex_escape() {
    let u = URIInput {
        scheme: URIScheme::Other,
        suffix: URISuffix::PDF,
        content: vec![0xde, 0xad],
    };
    assert_eq!(u.identifier(7), "\\xde\\xad");
    assert_eq!(u.identifier(7), encode_hex(&[0xde, 0xad]));
}

#[test]
fn encode_hex_format() {
    assert_eq!(encode_hex(&[]), "");
    assert_eq!(encode_hex(&[0x00, 0x0f, 0xa5]), "\\x00\\x0f\\xa5");
}

#[test]
fn decimal_text_of_integers() {
    assert_eq!(u64_text(0), "0");
    assert_eq!(u64_text(18446744073709551615), "18446744073709551615");
    assert_eq!(i32_text(0x8000_0000), "-2147483648");
    assert_eq!(i32_text(12345), "12345");
    assert_eq!(i64_text(u64::MAX), "-1");
}

#[test]
fn float_extra_specials() {
    let inf = ExtraInput {
        key: "k".to_string(),
        value: ExtraType::Float(DirectInput {
            buffer: f32::INFINITY.to_le_bytes().to_vec(),
        }),
    };
    assert_eq!(inf.command_args(1).unwrap(), " --ef 'k' $'Infinity'");
    let ninf = ExtraInput {
        key: "k".to_string(),
        value: ExtraType::Float(DirectInput {
            buffer: f32::NEG_INFINITY.to_le_bytes().to_vec(),
        }),
    };
    assert_eq!(ninf.command_args(1).unwrap(), " --ef 'k' $'-Infinity'");
    let nan = ExtraInput {
        key: "k".to_string(),
        value: ExtraType::Float(DirectInput { buffer: f32::NAN.to_le_bytes().to_vec() }),
    };
    assert_eq!(nan.command_args(1).unwrap(), " --ef 'k' $'NaN'");
}

#[test]
fn float_text_exact_values() {
    let cases: [(f32, &str); 8] = [
        (0.0, "0"),
        (-0.0, "-0"),
        (1.0, "1"),
        (0.5, "0.5"),
        (-3.75, "-3.75"),
        (12345.0, "12345"),
        (2048.0, "2048"),
        (0.25, "0.25"),
    ];
    for (v, expected) in cases {
        let b = v.to_le_bytes();
        assert_eq!(float_text(b[0], b[1], b[2], b[3]), expected);
    }
}

#[test]
fn float_text_round_trips() {
    // the exact decimal expansion parses back to the very same value
    let bits: [u32; 8] = [
        0x3DCCCCCD, // near one tenth
        0x00000001, // smallest subnormal
        0x007FFFFF, // largest subnormal
        0x7F7FFFFF, // largest finite
        0x80000001,
        0x3F800001,
        0x42F6E979,
        0x00800000, // smallest normal
    ];
    for raw in bits {
        let b = raw.to_le_bytes();
        let s = float_text(b[0], b[1], b[2], b[3]);
        let parsed: f32 = s.parse().unwrap();
        assert_eq!(parsed.to_bits(), raw);
    }
}

#[test]
fn hash_is_stable_and_32_hex_digits() {
    let i = base_input();
    let h1 = i.hash();
    let h2 = i.hash();
    assert_eq!(h1, h2);
    assert_eq!(h1.len(), 32);
    assert!(h1.chars().all(|c| c.is_ascii_hexdigit() && !c.is_ascii_uppercase()));
}

#[test]
fn hash_depends_on_fields() {
    let a = base_input();
    let mut b = base_input();
    b.action = "B".to_string();
    assert_ne!(a.hash(), b.hash());
    let mut c = base_input();
    c.flags = 1;
    assert_ne!(a.hash(), c.hash());
    let d = base_input();
    assert_eq!(a.hash(), d.hash());
}

#[test]
fn generate_name_shape() {
    let i = base_input();
    let name = i.generate_name(3);
    assert!(name.starts_with("id_3_"));
    assert_eq!(name.len(), "id_3_".len() + 32);
    assert!(name.ends_with(&i.hash()));
}

#[test]
fn component_joins_package_and_class() {
    let i = simple_input();
    assert_eq!(i.component(), "p/.C");
}

#[test]
fn substring_search() {
    assert!(str_contains("hello world", "lo wo"));
    assert!(str_contains("abc", ""));
    assert!(!str_contains("abc", "abcd"));
    assert!(!str_contains("Activity", "activity"));
}

#[test]
fn shell_command_with_every_field() {
    let i = IntentInput {
        receiver_type: ReceiverType::BroadcastReceiver,
        component_package: "com.a".to_string(),
        component_class: ".B".to_string(),
        action: "ACT".to_string(),
        category: "CAT".to_string(),
        data: Some(URIInput {
            scheme: URIScheme::Other,
            suffix: URISuffix::TXT,
            content: vec![0x01],
        }),
        mime_type: MimeType::ImagePng,
        flags: 7,
        extras: vec![
            ExtraInput {
                key: "k1".to_string(),
                value: ExtraType::Boolean(DirectInput { buffer: vec![1] }),
            },
            ExtraInput {
                key: "k2".to_string(),
                value: ExtraType::Int(DirectInput { buffer: vec![2, 0, 0, 0] }),
            },
        ],
    };
    assert_eq!(
        i.shell_command(),
        "am broadcast -n 'com.a/.B' -a 'ACT' -t 'image/png' --grant-read-uri-permission  -d '\\x01' -c CAT  --ez 'k1' $'true'  --ei 'k2' $'2'"
    );
}

#[test]
fn float_array_extra_rendering() {
    let mut buffer = (-0.5f32).to_le_bytes().to_vec();
    buffer.extend_from_slice(&0.0f32.to_le_bytes());
    let e = ExtraInput {
        key: "k".to_string(),
        value: ExtraType::FloatArray(DirectInput { buffer }),
    };
    assert_eq!(e.command_args(1).unwrap(), " --efa 'k' $'-0.5,0'");
}
