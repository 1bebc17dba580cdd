use long_term_memory::error::MemoryError;
use long_term_memory::long_term_memory::index_messages;
use long_term_memory::models::{Embedding, MemoryMessage, RawValue, RedisearchResult};
use long_term_memory::parser::{parse_hit, parse_redisearch_response};
use redis::Arg;

fn data(s: &str) -> RawValue {
    RawValue::Data(s.as_bytes().to_vec())
}

fn fields(pairs: &[(&str, &str)]) -> RawValue {
    let mut list = Vec::new();
    for (name, value) in pairs {
        list.push(data(name));
        list.push(data(value));
    }
    RawValue::Bulk(list)
}

fn hit(role: &str, content: &str, dist: &str) -> RedisearchResult {
    RedisearchResult { role: role.to_string(), content: content.to_string(), dist: dist.to_string() }
}

#[test]
fn reply_with_keys_and_field_lists_is_read_in_order() {
    let reply = RawValue::Bulk(vec![
        RawValue::Int(2),
        data("motorhead:a"),
        fields(&[("role", "user"), ("content", "hello"), ("dist", "0")]),
        data("motorhead:b"),
        fields(&[("role", "assistant"), ("content", "hi there"), ("dist", "0.25")]),
    ]);
    assert_eq!(
        parse_redisearch_response(&reply),
        Ok(vec![hit("user", "hello", "0"), hit("assistant", "hi there", "0.25")])
    );
}

#[test]
fn reply_without_keys_is_read_in_order() {
    let reply = RawValue::Bulk(vec![
        RawValue::Int(2),
        fields(&[("dist", "0.1"), ("content", "a"), ("role", "user")]),
        fields(&[("dist", "0.2"), ("content", "b"), ("role", "assistant")]),
    ]);
    assert_eq!(
        parse_redisearch_response(&reply),
        Ok(vec![hit("user", "a", "0.1"), hit("assistant", "b", "0.2")])
    );
}

#[test]
fn search_after_indexing_finds_what_was_indexed() {
    let messages = vec![
        MemoryMessage { role: "user".to_string(), content: "hello".to_string() },
        MemoryMessage { role: "assistant".to_string(), content: "hi there".to_string() },
    ];
    let embeddings = vec![
        Embedding { index: 0, embedding: vec![1.0f32.to_bits()] },
        Embedding { index: 1, embedding: vec![0.5f32.to_bits()] },
    ];
    let writes = index_messages(messages.clone(), "s1".to_string(), embeddings).unwrap();
    // What a store holding these two records answers: a count, then for each
    // record its key and the fields asked for, nearest first.
    let mut items = vec![RawValue::Int(writes.len() as i64)];
    for (rank, write) in writes.iter().enumerate() {
        let a: Vec<Vec<u8>> = write
            .args_iter()
            .map(|arg| match arg {
                Arg::Simple(bytes) => bytes.to_vec(),
                Arg::Cursor => panic!("a cursor argument"),
            })
            .collect();
        assert_eq!(a[3], b"s1".to_vec());
        items.push(RawValue::Data(a[1].clone()));
        items.push(RawValue::Bulk(vec![
            RawValue::Data(a[8].clone()),
            RawValue::Data(a[9].clone()),
            RawValue::Data(a[6].clone()),
            RawValue::Data(a[7].clone()),
            data("dist"),
            data(&format!("0.{}", rank)),
        ]));
    }
    let results = parse_redisearch_response(&RawValue::Bulk(items)).unwrap();
    assert!(!results.is_empty());
    assert_eq!(results.len(), 2);
    let top = &results[0];
    assert!(top.content == "hello" || top.content == "hi there");
    let source = messages.iter().find(|m| m.content == top.content).unwrap();
    assert_eq!(top.role, source.role);
    assert_eq!(results[0], hit("user", "hello", "0.0"));
    assert_eq!(results[1], hit("assistant", "hi there", "0.1"));
}

#[test]
fn reply_of_a_session_without_records_is_empty_and_no_error() {
    assert_eq!(parse_redisearch_response(&RawValue::Bulk(vec![RawValue::Int(0)])), Ok(Vec::new()));
    assert_eq!(parse_redisearch_response(&RawValue::Bulk(Vec::new())), Ok(Vec::new()));
}

#[test]
fn odd_length_field_list_is_a_parse_error() {
    let reply = RawValue::Bulk(vec![
        RawValue::Int(1),
        data("motorhead:a"),
        RawValue::Bulk(vec![data("role"), data("user"), data("content")]),
    ]);
    assert_eq!(parse_redisearch_response(&reply), Err(MemoryError::ParseError));
}

#[test]
fn odd_length_field_list_after_good_hits_is_a_parse_error() {
    let reply = RawValue::Bulk(vec![
        RawValue::Int(2),
        data("motorhead:a"),
        fields(&[("role", "user"), ("content", "hello"), ("dist", "0")]),
        data("motorhead:b"),
        RawValue::Bulk(vec![data("role")]),
    ]);
    assert_eq!(parse_redisearch_response(&reply), Err(MemoryError::ParseError));
}

#[test]
fn reply_that_is_no_list_is_a_parse_error() {
    assert_eq!(parse_redisearch_response(&RawValue::Nil), Err(MemoryError::ParseError));
    assert_eq!(parse_redisearch_response(&RawValue::Int(3)), Err(MemoryError::ParseError));
    assert_eq!(parse_redisearch_response(&data("x")), Err(MemoryError::ParseError));
    assert_eq!(parse_redisearch_response(&RawValue::Okay), Err(MemoryError::ParseError));
    assert_eq!(
        parse_redisearch_response(&RawValue::Status("OK".to_string())),
        Err(MemoryError::ParseError)
    );
}

#[test]
fn reply_without_a_header_is_a_parse_error() {
    let reply = RawValue::Bulk(vec![fields(&[("role", "user")])]);
    assert_eq!(parse_redisearch_response(&reply), Err(MemoryError::ParseError));
}

#[test]
fn key_without_a_field_list_is_a_parse_error() {
    let at_end = RawValue::Bulk(vec![RawValue::Int(1), data("motorhead:a")]);
    assert_eq!(parse_redisearch_response(&at_end), Err(MemoryError::ParseError));
    let before_key = RawValue::Bulk(vec![
        RawValue::Int(1),
        data("motorhead:a"),
        data("motorhead:b"),
        fields(&[("role", "user")]),
    ]);
    assert_eq!(parse_redisearch_response(&before_key), Err(MemoryError::ParseError));
}

#[test]
fn hit_that_omits_fields_reads_them_as_empty() {
    assert_eq!(parse_hit(&Vec::new()), Ok(hit("", "", "")));
    let only_content = vec![data("content"), data("hello")];
    assert_eq!(parse_hit(&only_content), Ok(hit("", "hello", "")));
    let reply = RawValue::Bulk(vec![RawValue::Int(1), data("k"), fields(&[("dist", "0.5")])]);
    assert_eq!(parse_redisearch_response(&reply), Ok(vec![hit("", "", "0.5")]));
}

#[test]
fn hit_passes_over_fields_it_does_not_look_for() {
    let list = vec![data("session"), data("s1"), data("role"), data("user"), data("Role"), data("x")];
    assert_eq!(parse_hit(&list), Ok(hit("user", "", "")));
}

#[test]
fn hit_takes_the_last_of_a_field_given_twice() {
    let list = vec![data("role"), data("user"), data("role"), data("assistant")];
    assert_eq!(parse_hit(&list), Ok(hit("assistant", "", "")));
}

#[test]
fn hit_with_a_name_or_value_that_is_no_byte_string_is_a_parse_error() {
    assert_eq!(parse_hit(&vec![RawValue::Int(1), data("user")]), Err(MemoryError::ParseError));
    assert_eq!(parse_hit(&vec![data("role"), RawValue::Nil]), Err(MemoryError::ParseError));
    assert_eq!(
        parse_hit(&vec![data("other"), RawValue::Bulk(Vec::new())]),
        Err(MemoryError::ParseError)
    );
}

#[test]
fn hit_with_a_value_that_is_no_text_is_a_parse_error() {
    let list = vec![data("content"), RawValue::Data(vec![0xff, 0xfe])];
    assert_eq!(parse_hit(&list), Err(MemoryError::ParseError));
    let list = vec![data("role"), RawValue::Data(vec![0xc3])];
    assert_eq!(parse_hit(&list), Err(MemoryError::ParseError));
}

#[test]
fn hit_reads_text_beyond_ascii() {
    let list = vec![data("content"), data("caf\u{e9} \u{1f600}"), data("role"), data("user")];
    assert_eq!(parse_hit(&list), Ok(hit("user", "caf\u{e9} \u{1f600}", "")));
}

#[test]
fn results_keep_the_rank_of_the_reply() {
    let dists = ["0", "0.125", "0.25", "0.5", "1.75"];
    let mut items = vec![RawValue::Int(dists.len() as i64)];
    for (i, d) in dists.iter().enumerate() {
        items.push(data(&format!("motorhead:{}", i)));
        items.push(fields(&[("role", "user"), ("content", &format!("m{}", i)), ("dist", d)]));
    }
    let results = parse_redisearch_response(&RawValue::Bulk(items)).unwrap();
    assert_eq!(results.len(), dists.len());
    let read: Vec<f64> = results.iter().map(|r| r.dist.parse::<f64>().unwrap()).collect();
    assert_eq!(read, vec![0.0, 0.125, 0.25, 0.5, 1.75]);
    for w in read.windows(2) {
        assert!(w[0] <= w[1]);
    }
    for (i, r) in results.iter().enumerate() {
        assert_eq!(r.content, format!("m{}", i));
    }
}
