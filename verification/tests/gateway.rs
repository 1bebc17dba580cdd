use long_term_memory::error::MemoryError;
use long_term_memory::gateway::{check_embeddings, embedding_inputs, EMBEDDING_MODEL};
use long_term_memory::long_term_memory::search_inputs;
use long_term_memory::models::{Embedding, MemoryMessage};

fn entry(index: u32) -> Embedding {
    Embedding { index, embedding: vec![index, 7] }
}

#[test]
fn embedding_model_is_fixed() {
    assert_eq!(EMBEDDING_MODEL, "text-embedding-ada-002");
}

#[test]
fn embedding_inputs_are_the_contents_in_order() {
    let messages = vec![
        MemoryMessage { role: "user".to_string(), content: "hello".to_string() },
        MemoryMessage { role: "assistant".to_string(), content: "hi there".to_string() },
        MemoryMessage { role: "user".to_string(), content: "".to_string() },
    ];
    assert_eq!(embedding_inputs(&messages), vec!["hello".to_string(), "hi there".to_string(), "".to_string()]);
    assert_eq!(embedding_inputs(&Vec::new()), Vec::<String>::new());
}

#[test]
fn search_inputs_are_the_query_alone() {
    assert_eq!(search_inputs("hello".to_string()), vec!["hello".to_string()]);
}

#[test]
fn answer_in_request_order_is_accepted() {
    assert_eq!(check_embeddings(&vec![entry(0), entry(1), entry(2)], 3), Ok(()));
}

#[test]
fn answer_out_of_request_order_is_accepted() {
    assert_eq!(check_embeddings(&vec![entry(2), entry(0), entry(1)], 3), Ok(()));
}

#[test]
fn empty_answer_to_empty_request_is_accepted() {
    assert_eq!(check_embeddings(&Vec::new(), 0), Ok(()));
}

#[test]
fn answer_with_too_few_entries_is_a_provider_error() {
    assert_eq!(check_embeddings(&vec![entry(0)], 2), Err(MemoryError::ProviderError));
    assert_eq!(check_embeddings(&Vec::new(), 1), Err(MemoryError::ProviderError));
}

#[test]
fn answer_with_too_many_entries_is_a_provider_error() {
    assert_eq!(check_embeddings(&vec![entry(0), entry(1)], 1), Err(MemoryError::ProviderError));
    assert_eq!(check_embeddings(&vec![entry(0)], 0), Err(MemoryError::ProviderError));
}

#[test]
fn answer_with_a_label_out_of_range_is_a_provider_error() {
    assert_eq!(check_embeddings(&vec![entry(0), entry(2)], 2), Err(MemoryError::ProviderError));
    assert_eq!(check_embeddings(&vec![entry(u32::MAX)], 1), Err(MemoryError::ProviderError));
}

#[test]
fn answer_with_a_label_twice_is_a_provider_error() {
    assert_eq!(check_embeddings(&vec![entry(1), entry(1)], 2), Err(MemoryError::ProviderError));
    assert_eq!(check_embeddings(&vec![entry(0), entry(1), entry(0)], 3), Err(MemoryError::ProviderError));
}

#[test]
fn accepted_answer_labels_every_position_once() {
    let entries = vec![entry(3), entry(1), entry(0), entry(2)];
    assert_eq!(check_embeddings(&entries, 4), Ok(()));
    for at in 0..4u32 {
        assert_eq!(entries.iter().filter(|e| e.index == at).count(), 1);
    }
}
