use fedimint_observer::document::assemble_document;
use fedimint_observer::document::clone_document;
use fedimint_observer::document::doc_eq;
use fedimint_observer::document::render_payload;
use fedimint_observer::document::ConfigDocument;
use fedimint_observer::document::ModuleConfigEntry;
use fedimint_observer::document::ModulePayload;
use fedimint_observer::document::RawModule;
use fedimint_observer::errors::extract_query;
use fedimint_observer::errors::ObserverError;
use fedimint_observer::hexcode::hex_decode;
use fedimint_observer::registry::DecoderRegistry;

fn raw_module(id: u16, kind: &str, raw: Vec<u8>, decoded: Option<&str>) -> RawModule {
    RawModule { id, kind: kind.to_owned(), raw, decoded: decoded.map(|s| s.to_owned()) }
}

#[test]
fn registry_holds_exactly_the_known_kinds() {
    let pairs = vec![
        (0u16, "ln".to_owned()),
        (1u16, "wallet".to_owned()),
        (2u16, "mint".to_owned()),
        (3u16, "unknownmodule".to_owned()),
    ];
    let registry = DecoderRegistry::get_decoders(&pairs);
    assert!(registry.has_decoder(0));
    assert!(registry.has_decoder(1));
    assert!(registry.has_decoder(2));
    assert!(!registry.has_decoder(3));
    assert!(!registry.has_decoder(9));
}

#[test]
fn registry_content_ignores_pair_order() {
    let pairs = vec![
        (0u16, "ln".to_owned()),
        (1u16, "other".to_owned()),
        (2u16, "mint".to_owned()),
    ];
    let reversed: Vec<(u16, String)> = pairs.iter().rev().cloned().collect();
    let a = DecoderRegistry::get_decoders(&pairs);
    let b = DecoderRegistry::get_decoders(&reversed);
    for id in 0u16..4 {
        assert_eq!(a.has_decoder(id), b.has_decoder(id));
    }
}

#[test]
fn unknown_kind_degrades_to_hex_and_round_trips() {
    let bytes = vec![0x00, 0x7f, 0xff, 0x10];
    let modules = vec![raw_module(5, "unknownmodule", bytes.clone(), None)];
    let doc = assemble_document("{}".to_owned(), &modules).unwrap();
    assert_eq!(doc.modules.len(), 1);
    assert_eq!(doc.modules[0].0, 5);
    let entry = &doc.modules[0].1;
    assert_eq!(entry.kind, "unknownmodule");
    match &entry.payload {
        ModulePayload::RawBytes(b) => assert_eq!(b, &bytes),
        _ => panic!("unknown kind must keep its raw bytes"),
    }
    let rendered = render_payload(&entry.payload);
    assert_eq!(rendered, "007fff10");
    assert_eq!(rendered, hex::encode(&bytes));
    assert_eq!(hex_decode(&rendered), Some(bytes));
}

#[test]
fn known_kind_carries_the_decoded_value() {
    let modules = vec![raw_module(0, "ln", vec![1, 2, 3], Some("{\"fee\":1}"))];
    let doc = assemble_document("{}".to_owned(), &modules).unwrap();
    match &doc.modules[0].1.payload {
        ModulePayload::Decoded(s) => assert_eq!(s, "{\"fee\":1}"),
        _ => panic!("known kind must carry the decoder's value"),
    }
}

#[test]
fn rendering_is_value_stable_across_repeated_calls() {
    let payload = ModulePayload::Decoded("{\"fee\":1}".to_owned());
    let first = render_payload(&payload);
    let second = render_payload(&payload);
    assert_eq!(first, second);
    let raw = ModulePayload::RawBytes(vec![0xab, 0xcd]);
    assert_eq!(render_payload(&raw), render_payload(&raw));
}

#[test]
fn known_kind_without_decoder_answer_is_a_decode_error() {
    let modules = vec![raw_module(0, "mint", vec![1, 2, 3], None)];
    let r = assemble_document("{}".to_owned(), &modules);
    assert_eq!(r.err(), Some(ObserverError::Decode));
}

#[test]
fn document_without_modules_assembles() {
    let doc = assemble_document("{\"name\":\"fed\"}".to_owned(), &vec![]).unwrap();
    assert_eq!(doc.global, "{\"name\":\"fed\"}");
    assert_eq!(doc.modules.len(), 0);
}

#[test]
fn documents_compare_structurally() {
    let make = |text: &str| ConfigDocument {
        global: "{}".to_owned(),
        modules: vec![(
            0u16,
            ModuleConfigEntry {
                kind: "ln".to_owned(),
                payload: ModulePayload::Decoded(text.to_owned()),
            },
        )],
    };
    let a = make("{\"fee\":1}");
    let b = make("{\"fee\":1}");
    let c = make("{\"fee\":2}");
    assert!(doc_eq(&a, &b));
    assert!(!doc_eq(&a, &c));
    let copied = clone_document(&a);
    assert!(doc_eq(&a, &copied));
}

#[test]
fn hex_decode_rejects_what_no_encoding_produces() {
    assert_eq!(hex_decode("abc"), None);
    assert_eq!(hex_decode("zz"), None);
    assert_eq!(hex_decode("AB"), None);
    assert_eq!(hex_decode(""), Some(vec![]));
}

#[test]
fn query_field_validation() {
    assert_eq!(
        extract_query(None),
        Err(ObserverError::MissingQuery)
    );
    assert_eq!(
        extract_query(Some(None)),
        Err(ObserverError::QueryNotText)
    );
    assert_eq!(
        extract_query(Some(Some("select 1".to_owned()))),
        Ok("select 1".to_owned())
    );
}
