//! Mutation operators: outcome reporting, invariants, and the template
//! generator.

use intent_fuzz::intent_generator::IntentGenerator;
use intent_fuzz::intent_generator::IntentTemplate;
use intent_fuzz::intent_input::DirectInput;
use intent_fuzz::intent_input::ExtraInput;
use intent_fuzz::intent_input::ExtraType;
use intent_fuzz::intent_input::IntentInput;
use intent_fuzz::intent_input::MimeType;
use intent_fuzz::intent_input::ReceiverType;
use intent_fuzz::intent_input::URIInput;
use intent_fuzz::intent_input::URIScheme;
use intent_fuzz::intent_input::URISuffix;
use intent_fuzz::intent_input::mime_from_index;
use intent_fuzz::intent_input::scheme_from_index;
use intent_fuzz::intent_input::suffix_from_index;
use intent_fuzz::intent_mutator::MutationOutcome;
use intent_fuzz::intent_mutator::choose_extra_key;
use intent_fuzz::intent_mutator::extra_from_tag;
use intent_fuzz::intent_mutator::random_add_extra_mutate;
use intent_fuzz::intent_mutator::random_data_mutate;
use intent_fuzz::intent_mutator::random_extra_content_mutate;
use intent_fuzz::intent_mutator::random_extra_key_mutate;
use intent_fuzz::intent_mutator::random_extra_scheme_mutate;
use intent_fuzz::intent_mutator::random_extra_suffix_mutate;
use intent_fuzz::intent_mutator::random_flag_mutate;
use intent_fuzz::intent_mutator::random_mime_type_mutate;
use intent_fuzz::util::common_extra_key;

fn seeded() -> IntentInput {
    IntentInput {
        receiver_type: ReceiverType::Activity,
        component_package: "com.example".to_string(),
        component_class: ".Main".to_string(),
        action: "android.intent.action.VIEW".to_string(),
        category: "android.intent.category.DEFAULT".to_string(),
        data: None,
        mime_type: MimeType::TextPlain,
        flags: 0,
        extras: Vec::new(),
    }
}

fn bool_extra(key: &str) -> ExtraInput {
    ExtraInput {
        key: key.to_string(),
        value: ExtraType::Boolean(DirectInput { buffer: vec![1] }),
    }
}

#[test]
fn flag_mutation_toggles_one_low_bit() {
    let mut i = seeded();
    let r = random_flag_mutate(&mut i, 10);
    assert_eq!(r, MutationOutcome::Mutated);
    assert_eq!(i.flags, 1 << (10 % 8));
    let r2 = random_flag_mutate(&mut i, 10);
    assert_eq!(r2, MutationOutcome::Mutated);
    assert_eq!(i.flags, 0);
}

#[test]
fn mime_mutation_assigns() {
    let mut i = seeded();
    let r = random_mime_type_mutate(&mut i, MimeType::ImagePng);
    assert_eq!(r, MutationOutcome::Mutated);
    assert!(matches!(i.mime_type, MimeType::ImagePng));
}

#[test]
fn mime_mutation_same_draw_is_skipped() {
    let mut i = seeded();
    let before = i.shell_command();
    let r = random_mime_type_mutate(&mut i, MimeType::TextPlain);
    assert_eq!(r, MutationOutcome::Skipped);
    assert_eq!(i.shell_command(), before);
}

#[test]
fn data_mutation_installs_fresh_uri() {
    let mut i = seeded();
    let r = random_data_mutate(&mut i, 0, URIScheme::File, URISuffix::PNG, vec![1, 2], true);
    assert_eq!(r, MutationOutcome::Mutated);
    let d = i.data.as_ref().unwrap();
    assert!(matches!(d.scheme, URIScheme::File));
    assert!(matches!(d.suffix, URISuffix::PNG));
    assert_eq!(d.content, vec![1, 2]);
}

#[test]
fn data_mutation_reassigns_scheme_only() {
    let mut i = seeded();
    i.data = Some(URIInput {
        scheme: URIScheme::File,
        suffix: URISuffix::TXT,
        content: vec![9],
    });
    let r = random_data_mutate(&mut i, 1, URIScheme::Content, URISuffix::PNG, vec![], false);
    assert_eq!(r, MutationOutcome::Mutated);
    let d = i.data.as_ref().unwrap();
    assert!(matches!(d.scheme, URIScheme::Content));
    assert!(matches!(d.suffix, URISuffix::TXT));
    assert_eq!(d.content, vec![9]);
}

#[test]
fn data_mutation_install_is_mutated_even_on_skipped_havoc() {
    let mut i = seeded();
    let r = random_data_mutate(&mut i, 0, URIScheme::File, URISuffix::PNG, vec![], false);
    // installing the fresh URI changes the input, so this is a mutation
    assert_eq!(r, MutationOutcome::Mutated);
    assert!(i.data.is_some());
}

#[test]
fn data_mutation_same_scheme_draw_is_skipped() {
    let mut i = seeded();
    i.data = Some(URIInput {
        scheme: URIScheme::File,
        suffix: URISuffix::TXT,
        content: vec![9],
    });
    let before = i.shell_command();
    let r = random_data_mutate(&mut i, 1, URIScheme::File, URISuffix::PNG, vec![], false);
    assert_eq!(r, MutationOutcome::Skipped);
    assert_eq!(i.shell_command(), before);
    let r2 = random_data_mutate(&mut i, 2, URIScheme::Content, URISuffix::TXT, vec![], false);
    assert_eq!(r2, MutationOutcome::Skipped);
    assert_eq!(i.shell_command(), before);
}

#[test]
fn data_mutation_skipped_havoc_leaves_input() {
    let mut i = seeded();
    i.data = Some(URIInput {
        scheme: URIScheme::File,
        suffix: URISuffix::TXT,
        content: vec![9],
    });
    let before = i.shell_command();
    let r = random_data_mutate(&mut i, 3, URIScheme::Content, URISuffix::PNG, vec![9], false);
    assert_eq!(r, MutationOutcome::Skipped);
    assert_eq!(i.shell_command(), before);
}

#[test]
fn add_extra_skipped_at_ten() {
    let mut i = seeded();
    for k in 0..10 {
        i.extras.push(bool_extra(&format!("k{}", k)));
    }
    let before = i.shell_command();
    let r = random_add_extra_mutate(&mut i, bool_extra("extra"), vec![1, 2, 3], true);
    assert_eq!(r, MutationOutcome::Skipped);
    assert_eq!(i.extras.len(), 10);
    assert_eq!(i.shell_command(), before);
}

#[test]
fn add_extra_appends_and_normalizes() {
    let mut i = seeded();
    let r = random_add_extra_mutate(&mut i, bool_extra("b"), vec![1, 2, 3, 4], true);
    assert_eq!(r, MutationOutcome::Mutated);
    assert_eq!(i.extras.len(), 1);
    match &i.extras[0].value {
        ExtraType::Boolean(d) => assert_eq!(d.buffer, vec![1]),
        _ => panic!("wrong variant"),
    }
}

#[test]
fn add_extra_is_mutated_even_on_skipped_havoc() {
    let mut i = seeded();
    let r = random_add_extra_mutate(&mut i, bool_extra("b"), vec![], false);
    // appending changes the input, so this is a mutation
    assert_eq!(r, MutationOutcome::Mutated);
    assert_eq!(i.extras.len(), 1);
}

#[test]
fn extras_never_exceed_ten() {
    let mut i = seeded();
    for k in 0..30 {
        random_add_extra_mutate(&mut i, bool_extra(&format!("k{}", k)), vec![0], true);
        assert!(i.extras.len() <= 10);
    }
    assert_eq!(i.extras.len(), 10);
}

#[test]
fn content_mutation_enforces_widths() {
    let widths: [(ExtraType, usize); 4] = [
        (ExtraType::Boolean(DirectInput { buffer: vec![] }), 1),
        (ExtraType::Int(DirectInput { buffer: vec![] }), 4),
        (ExtraType::Float(DirectInput { buffer: vec![] }), 4),
        (ExtraType::Long(DirectInput { buffer: vec![] }), 8),
    ];
    for (value, width) in widths {
        let mut i = seeded();
        i.extras.push(ExtraInput { key: "k".to_string(), value });
        let r = random_extra_content_mutate(&mut i, 0, vec![7; 20], true);
        assert_eq!(r, MutationOutcome::Mutated);
        match &i.extras[0].value {
            ExtraType::Boolean(d) | ExtraType::Int(d) | ExtraType::Float(d)
            | ExtraType::Long(d) => {
                assert_eq!(d.buffer.len(), width);
            },
            _ => panic!("wrong variant"),
        }
    }
}

#[test]
fn content_mutation_zero_pads_short_havoc() {
    let mut i = seeded();
    i.extras.push(ExtraInput {
        key: "k".to_string(),
        value: ExtraType::Long(DirectInput { buffer: vec![] }),
    });
    random_extra_content_mutate(&mut i, 0, vec![0xff], true);
    match &i.extras[0].value {
        ExtraType::Long(d) => assert_eq!(d.buffer, vec![0xff, 0, 0, 0, 0, 0, 0, 0]),
        _ => panic!("wrong variant"),
    }
}

#[test]
fn content_mutation_without_extras_is_skipped() {
    let mut i = seeded();
    let before = i.shell_command();
    let r = random_extra_content_mutate(&mut i, 0, vec![1], true);
    assert_eq!(r, MutationOutcome::Skipped);
    assert_eq!(i.shell_command(), before);
}

#[test]
fn key_mutation_replaces_only_the_key() {
    let mut i = seeded();
    i.extras.push(bool_extra("old"));
    let r = random_extra_key_mutate(&mut i, 0, "new".to_string());
    assert_eq!(r, MutationOutcome::Mutated);
    assert_eq!(i.extras[0].key, "new");
    assert!(matches!(i.extras[0].value, ExtraType::Boolean(_)));
}

#[test]
fn key_mutation_same_key_is_skipped() {
    let mut i = seeded();
    i.extras.push(bool_extra("same"));
    let before = i.shell_command();
    let r = random_extra_key_mutate(&mut i, 0, "same".to_string());
    assert_eq!(r, MutationOutcome::Skipped);
    assert_eq!(i.shell_command(), before);
}

#[test]
fn key_mutation_without_extras_is_skipped() {
    let mut i = seeded();
    let r = random_extra_key_mutate(&mut i, 0, "new".to_string());
    assert_eq!(r, MutationOutcome::Skipped);
    assert!(i.extras.is_empty());
}

#[test]
fn scheme_mutation_skipped_without_uri_extra() {
    let mut i = seeded();
    i.extras.push(bool_extra("b"));
    let before = i.shell_command();
    let r = random_extra_scheme_mutate(&mut i, 0, URIScheme::Content);
    assert_eq!(r, MutationOutcome::Skipped);
    assert_eq!(i.shell_command(), before);
    let r2 = random_extra_suffix_mutate(&mut i, 0, URISuffix::PDF);
    assert_eq!(r2, MutationOutcome::Skipped);
    assert_eq!(i.shell_command(), before);
}

#[test]
fn scheme_and_suffix_same_draw_is_skipped() {
    let mut i = seeded();
    i.extras.push(ExtraInput {
        key: "u".to_string(),
        value: ExtraType::URI(URIInput {
            scheme: URIScheme::File,
            suffix: URISuffix::TXT,
            content: vec![],
        }),
    });
    let before = i.shell_command();
    assert_eq!(random_extra_scheme_mutate(&mut i, 0, URIScheme::File), MutationOutcome::Skipped);
    assert_eq!(random_extra_suffix_mutate(&mut i, 0, URISuffix::TXT), MutationOutcome::Skipped);
    assert_eq!(i.shell_command(), before);
}

#[test]
fn scheme_and_suffix_mutation_on_uri_extra() {
    let mut i = seeded();
    i.extras.push(ExtraInput {
        key: "u".to_string(),
        value: ExtraType::URI(URIInput {
            scheme: URIScheme::File,
            suffix: URISuffix::TXT,
            content: vec![],
        }),
    });
    assert_eq!(
        random_extra_scheme_mutate(&mut i, 0, URIScheme::Content),
        MutationOutcome::Mutated
    );
    assert_eq!(random_extra_suffix_mutate(&mut i, 0, URISuffix::PDF), MutationOutcome::Mutated);
    match &i.extras[0].value {
        ExtraType::URI(u) => {
            assert!(matches!(u.scheme, URIScheme::Content));
            assert!(matches!(u.suffix, URISuffix::PDF));
        },
        _ => panic!("wrong variant"),
    }
}

#[test]
fn target_fields_survive_mutation_chain() {
    let mut i = seeded();
    random_flag_mutate(&mut i, 5);
    random_mime_type_mutate(&mut i, MimeType::AudioOgg);
    random_data_mutate(&mut i, 0, URIScheme::Content, URISuffix::MP3, vec![1], true);
    random_add_extra_mutate(&mut i, bool_extra("b"), vec![0], true);
    random_extra_key_mutate(&mut i, 0, "renamed".to_string());
    random_extra_content_mutate(&mut i, 0, vec![1, 2], true);
    assert!(matches!(i.receiver_type, ReceiverType::Activity));
    assert_eq!(i.component_package, "com.example");
    assert_eq!(i.component_class, ".Main");
    assert_eq!(i.action, "android.intent.action.VIEW");
    assert_eq!(i.category, "android.intent.category.DEFAULT");
}

#[test]
fn extra_from_tag_variants_and_fallback() {
    let e = extra_from_tag("k".to_string(), "IntArray", URIScheme::File, URISuffix::TXT);
    assert!(matches!(e.value, ExtraType::IntArray(_)));
    let u = extra_from_tag("k".to_string(), "URI", URIScheme::Content, URISuffix::GIF);
    match u.value {
        ExtraType::URI(uri) => {
            assert!(matches!(uri.scheme, URIScheme::Content));
            assert!(matches!(uri.suffix, URISuffix::GIF));
            assert!(uri.content.is_empty());
        },
        _ => panic!("wrong variant"),
    }
    let fallback = extra_from_tag("k".to_string(), "ParcelableArray", URIScheme::File, URISuffix::TXT);
    assert!(matches!(fallback.value, ExtraType::Boolean(_)));
}

#[test]
fn choose_extra_key_spans_known_and_common() {
    let known = vec![("custom.key".to_string(), "Int".to_string())];
    let (k0, t0) = choose_extra_key(&known, 0);
    assert_eq!(k0, "custom.key");
    assert_eq!(t0, "Int");
    let (k1, t1) = choose_extra_key(&known, 1);
    assert_eq!((k1.as_str(), t1.as_str()), ("android.intent.extra.CC", "StringArray"));
    // the draw wraps around the combined table
    let (k15, _) = choose_extra_key(&known, 15);
    assert_eq!(k15, "custom.key");
}

#[test]
fn common_extra_key_table_entries() {
    assert_eq!(
        common_extra_key(0),
        ("android.intent.extra.CC".to_string(), "StringArray".to_string())
    );
    assert_eq!(
        common_extra_key(13),
        ("android.intent.extra.UID".to_string(), "Int".to_string())
    );
}

#[test]
fn enum_index_selectors_wrap() {
    assert!(matches!(mime_from_index(0), MimeType::ApplicationPdf));
    assert!(matches!(mime_from_index(18), MimeType::ApplicationPdf));
    assert!(matches!(scheme_from_index(2), URIScheme::Other));
    assert!(matches!(suffix_from_index(15), URISuffix::XML));
    assert!(matches!(suffix_from_index(16), URISuffix::AAC));
}

fn template(receiver: ReceiverType, actions: &[&str], categories: &[&str]) -> IntentTemplate {
    IntentTemplate {
        receiver_type: receiver,
        component: "p/.C".to_string(),
        actions: actions.iter().map(|s| s.to_string()).collect(),
        categories: categories.iter().map(|s| s.to_string()).collect(),
        known_extras_keys: Vec::new(),
    }
}

#[test]
fn seed_enumeration_with_category() {
    let t = template(ReceiverType::Activity, &["A1", "A2"], &["C1"]);
    assert_eq!(t.number_of_intents(), 2);
    let s0 = t.get_intent_input_for_index(0);
    assert_eq!(s0.action, "A1");
    assert_eq!(s0.category, "C1");
    let s1 = t.get_intent_input_for_index(1);
    assert_eq!(s1.action, "A2");
    assert_eq!(s1.category, "C1");
    assert!(s0.data.is_none());
    assert!(matches!(s0.mime_type, MimeType::TextPlain));
    assert_eq!(s0.flags, 0);
    assert!(s0.extras.is_empty());
}

#[test]
fn seed_enumeration_without_categories() {
    let t = template(ReceiverType::Activity, &["A1", "A2"], &[]);
    assert_eq!(t.number_of_intents(), 2);
    assert_eq!(t.get_intent_input_for_index(0).category, "");
    assert_eq!(t.get_intent_input_for_index(1).category, "");
}

#[test]
fn template_component_split() {
    let t = template(ReceiverType::Activity, &["A"], &[]);
    assert_eq!(t.package_name(), "p");
    assert_eq!(t.class_name(), ".C");
}

#[test]
fn generator_filters_directory_templates() {
    let all = vec![
        template(ReceiverType::Service, &["A"], &[]),
        template(ReceiverType::Activity, &["B"], &[]),
    ];
    let g = IntentGenerator::from_directory_templates(all).unwrap();
    assert_eq!(g.templates.len(), 1);
    assert_eq!(g.templates[0].actions[0], "B");
    let none = IntentGenerator::from_directory_templates(vec![template(
        ReceiverType::Service,
        &["A"],
        &[],
    )]);
    assert!(none.is_none());
}

#[test]
fn generator_support_gate() {
    let g = IntentGenerator::from_single_template(template(ReceiverType::Service, &["A"], &[]));
    assert!(!g.is_supported());
    assert!(!g.enable_synchronization());
    let g2 = IntentGenerator::from_single_template(template(
        ReceiverType::BroadcastReceiver,
        &["A"],
        &[],
    ));
    assert!(g2.is_supported());
    assert!(!g2.enable_synchronization());
    let g3 = IntentGenerator::from_single_template(template(ReceiverType::Activity, &["A"], &[]));
    assert!(g3.is_supported());
    assert!(g3.enable_synchronization());
}

#[test]
fn generator_walks_every_seed_then_stops() {
    let mut g = IntentGenerator::from_single_template(template(
        ReceiverType::Activity,
        &["A1", "A2"],
        &["C1"],
    ));
    assert_eq!(g.number_of_intents(), 2);
    let s0 = g.generate().unwrap();
    assert_eq!(s0.action, "A1");
    let s1 = g.generate().unwrap();
    assert_eq!(s1.action, "A2");
    assert!(g.generate().is_none());
}
