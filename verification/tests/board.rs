use kanban_desktop::board::{count_board, length_under, BoardCounts};

#[test]
fn columns_and_cards_are_counted() {
    let text = "{\"columns\": [1, 2, 3], \"cards\": [{}, {\"columns\": []}], \"name\": \"x\"}";
    assert_eq!(count_board(text), Ok(BoardCounts { columns: 3, cards: 2 }));
}

#[test]
fn what_is_not_an_array_counts_as_nothing() {
    let none = BoardCounts { columns: 0, cards: 0 };
    assert_eq!(count_board("{}"), Ok(none));
    assert_eq!(count_board("{\"columns\": 7, \"cards\": {\"a\": 1}}"), Ok(none));
    assert_eq!(count_board("{\"columns\": \"abc\", \"cards\": null}"), Ok(none));
    assert_eq!(count_board("[1, 2, 3]"), Ok(none));
    assert_eq!(count_board("\"columns\""), Ok(none));
    assert_eq!(count_board("null"), Ok(none));
    assert_eq!(
        count_board("{\"cards\": []}"),
        Ok(BoardCounts { columns: 0, cards: 0 })
    );
    assert_eq!(
        count_board("{\"cards\": [[], []]}"),
        Ok(BoardCounts { columns: 0, cards: 2 })
    );
}

#[test]
fn a_text_that_is_not_json_is_refused_in_the_words_of_the_reader() {
    assert_eq!(
        count_board(""),
        Err("EOF while parsing a value at line 1 column 0".to_string())
    );
    assert_eq!(
        count_board("{\"columns\": [}"),
        Err(serde_json::from_str::<serde_json::Value>("{\"columns\": [}")
            .unwrap_err()
            .to_string())
    );
    assert!(count_board("{} {}").is_err());
}

#[test]
fn a_length_is_found_under_its_key_only() {
    let board: serde_json::Value = serde_json::from_str("{\"a\": [0, 0], \"b\": 2}").unwrap();
    assert_eq!(length_under(&board, "a"), 2);
    assert_eq!(length_under(&board, "b"), 0);
    assert_eq!(length_under(&board, "c"), 0);
}
