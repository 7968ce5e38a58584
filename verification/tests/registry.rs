use model_serving::grpc_service::configuration::{generate_random_registry, ModelType};
use model_serving::grpc_service::server::{new_span_id, span_id};

fn is_uuid_v4(s: &str) -> bool {
    let b: Vec<char> = s.chars().collect();
    if b.len() != 36 {
        return false;
    }
    for (i, c) in b.iter().enumerate() {
        if i == 8 || i == 13 || i == 18 || i == 23 {
            if *c != '-' {
                return false;
            }
        } else if !(c.is_ascii_digit() || ('a'..='f').contains(c)) {
            return false;
        }
    }
    b[14] == '4' && "89ab".contains(b[19])
}

#[test]
fn random_registry_holds_32_image_models() {
    let r = generate_random_registry();
    assert_eq!(r.len(), 32);
    for m in &r {
        assert_eq!(m.model_type, ModelType::Image);
        assert!(is_uuid_v4(&m.model_id), "{}", m.model_id);
    }
}

#[test]
fn random_registry_ids_differ() {
    let r = generate_random_registry();
    for i in 0..r.len() {
        for j in (i + 1)..r.len() {
            assert_ne!(r[i].model_id, r[j].model_id);
        }
    }
}

#[test]
fn span_id_is_text_before_first_hyphen() {
    assert_eq!(span_id("67e55044-10b1-426f-9247-bb680e5fe0c8"), "67e55044");
    assert_eq!(span_id("abc-def-ghi"), "abc");
    assert_eq!(span_id("-abc"), "");
    assert_eq!(span_id("nohyphen"), "nohyphen");
    assert_eq!(span_id(""), "");
}

#[test]
fn new_span_id_is_eight_hex_digits() {
    let id = new_span_id();
    assert_eq!(id.len(), 8);
    assert!(id.chars().all(|c| c.is_ascii_digit() || ('a'..='f').contains(&c)));
}

use model_serving::grpc_service::server::Registry;

#[test]
fn registry_lists_what_was_last_read() {
    let mut r = Registry::new();
    assert_eq!(r.len(), 0);
    assert!(r.snapshot().is_empty());
    r.refresh(vec!["alibaba/qwen2.5".to_string(), "meta/llama4".to_string()]);
    assert_eq!(r.snapshot(), vec!["alibaba/qwen2.5".to_string(), "meta/llama4".to_string()]);
    r.refresh(vec!["jina/embeddingsv2".to_string()]);
    assert_eq!(r.snapshot(), vec!["jina/embeddingsv2".to_string()]);
    assert_eq!(r.len(), 1);
}
