use biyard_kit::dynamo_query::{decode_bookmark, encode_bookmark, index_filter, next_page, BookmarkError, PageAction};

fn pairs(v: &[(&str, &str)]) -> Vec<(String, String)> {
    v.iter().map(|(k, v)| (k.to_string(), v.to_string())).collect()
}

#[test]
fn exact_filter_wins_over_prefix() {
    assert_eq!(
        index_filter(Some("USER#1"), Some("USER")),
        Some(("#base_sk = :base_sk_value".to_string(), "USER#1".to_string()))
    );
    assert_eq!(
        index_filter(None, Some("USER")),
        Some(("begins_with(#base_sk, :base_sk_value)".to_string(), "USER".to_string()))
    );
    assert_eq!(index_filter(None, None), None);
}

#[test]
fn bookmark_text_joins_pieces() {
    let lek = pairs(&[("pk", "A#1"), ("sk", "B#2")]);
    assert_eq!(encode_bookmark(&lek), "pk;;;A#1;;;sk;;;B#2");
    assert_eq!(encode_bookmark(&pairs(&[("pk", "x")])), "pk;;;x");
    assert_eq!(encode_bookmark(&Vec::new()), "");
}

#[test]
fn bookmark_round_trip() {
    let lek = pairs(&[("pk", "A#1"), ("sk", "B#2"), ("gsi1_pk", "")]);
    assert_eq!(decode_bookmark(&encode_bookmark(&lek)), Ok(lek));
}

#[test]
fn bookmark_with_odd_parts_is_invalid() {
    assert_eq!(decode_bookmark("pk;;;a;;;sk"), Err(BookmarkError::InvalidBookmark));
    assert_eq!(decode_bookmark(""), Err(BookmarkError::InvalidBookmark));
    assert_eq!(decode_bookmark("pk"), Err(BookmarkError::InvalidBookmark));
}

#[test]
fn bookmark_split_is_left_to_right() {
    assert_eq!(decode_bookmark("a;;;;b"), Ok(pairs(&[("a", ";b")])));
    assert_eq!(decode_bookmark("a;;;"), Ok(pairs(&[("a", "")])));
}

#[test]
fn page_steps() {
    let lek = pairs(&[("pk", "p"), ("sk", "s")]);
    match next_page(true, Some(lek.clone())) {
        PageAction::Fetch(k) => assert_eq!(k, lek),
        PageAction::Done(_) => panic!("expected another page"),
    }
    match next_page(false, Some(lek.clone())) {
        PageAction::Done(b) => assert_eq!(b.map(|k| encode_bookmark(&k)), Some("pk;;;p;;;sk;;;s".to_string())),
        PageAction::Fetch(_) => panic!("expected the last page"),
    }
    assert!(matches!(next_page::<Vec<(String, String)>>(true, None), PageAction::Done(None)));
    assert!(matches!(next_page::<Vec<(String, String)>>(false, None), PageAction::Done(None)));
}
