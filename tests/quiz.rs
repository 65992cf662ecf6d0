use lt_quiz::quiz::{
    about_rows, config_line, placeholders, question_markdown, questions_list, questions_query,
    Question,
};
use lt_quiz::store::{encode_distractors, query_params, question_from_columns, StoreError};

fn question() -> Question {
    Question {
        id: Some(0),
        description: "Memory safety in Rust".to_string(),
        answer: "Unsafe".to_string(),
        distractors: vec!["Safe".to_string()],
        tags: vec![],
    }
}

fn render(rows: Vec<Vec<String>>) -> String {
    let mut table = prettytable::Table::new();
    for row in rows {
        table.add_row(prettytable::Row::new(row.iter().map(|c| prettytable::Cell::new(c)).collect()));
    }
    format!("{}\n", table)
}

#[test]
fn empty_list() {
    assert_eq!(questions_list(&vec![]), "");
}

#[test]
fn question_list() {
    assert_eq!(
        questions_list(&vec![question()]),
        "0. Memory safety in Rust\nAnswer:\nUnsafe\nDistractors:\nSafe\n"
    );
}

#[test]
fn empty_table() {
    assert_eq!(
        render(about_rows(&vec![])),
        "+----+-------------+--------+-------------+\n\
         | ID | Description | Answer | Distractors |\n\
         +----+-------------+--------+-------------+\n\n"
    );
}

#[test]
fn question_table() {
    assert_eq!(
        render(about_rows(&vec![question()])),
        "+----+-----------------------+--------+-------------+\n\
         | ID | Description           | Answer | Distractors |\n\
         +----+-----------------------+--------+-------------+\n\
         | 0  | Memory safety in Rust | Unsafe | Safe        |\n\
         +----+-----------------------+--------+-------------+\n\n"
    );
}

#[test]
fn config() {
    assert_eq!(config_line("default", "GitHub"), "[default] Theme: GitHub\n");
}

#[test]
fn test_placeholders() {
    assert_eq!(placeholders(0), "");
    assert_eq!(placeholders(1), "?");
    assert_eq!(placeholders(3), "?,?,?");
    assert_eq!(placeholders(5), "?,?,?,?,?");
}

#[test]
fn long_descriptions_are_cut_and_ids_written_in_decimal() {
    let mut q = question();
    q.id = Some(-42);
    q.description = "x".repeat(70);
    q.distractors = vec!["a".to_string(), "b".to_string()];
    let text = questions_list(&vec![q.clone(), question()]);
    let expected = format!(
        "-42. {}\nAnswer:\nUnsafe\nDistractors:\na\nb\n0. Memory safety in Rust\nAnswer:\nUnsafe\nDistractors:\nSafe\n",
        "x".repeat(60)
    );
    assert_eq!(text, expected);
}

#[test]
fn markdown_section() {
    let mut q = question();
    q.id = Some(12);
    q.distractors = vec!["Safe".to_string(), "Both".to_string()];
    assert_eq!(
        question_markdown(&q),
        "\n\n## 12 \n\nMemory safety in Rust\n\n* Unsafe :heavy_check_mark:\n* Safe\n* Both"
    );
}

#[test]
fn query_without_and_with_tags() {
    let head = "SELECT q.id, q.description, q.answer, q.distractors
        FROM questions AS q
        INNER JOIN question_tags AS qt ON q.id = qt.question_id
        INNER JOIN tags AS t ON qt.tag_id = t.id\n";
    assert_eq!(questions_query(0, 0), head);
    assert_eq!(
        questions_query(2, 1),
        format!("{head}WHERE t.text IN (?,?)\nAND t.text NOT IN (?)\n")
    );
    assert_eq!(questions_query(0, 3), format!("{head}AND t.text NOT IN (?,?,?)\n"));
    let params = query_params(vec!["a".to_string()], vec!["b".to_string(), "c".to_string()]);
    assert_eq!(params, vec!["a", "b", "c"]);
}

#[test]
fn distractors_round_trip_through_json() {
    let mut q = question();
    q.distractors = vec!["Safe".to_string(), "a \"quoted\" one".to_string()];
    let json = encode_distractors(&q).unwrap();
    assert_eq!(json, r#"["Safe","a \"quoted\" one"]"#);
    let back = question_from_columns(3, "d".to_string(), "a".to_string(), &json).unwrap();
    assert_eq!(back.id, Some(3));
    assert_eq!(back.distractors, q.distractors);
    assert!(back.tags.is_empty());
    let bad = question_from_columns(3, "d".to_string(), "a".to_string(), "{\"x\": 1}");
    assert_eq!(bad.unwrap_err(), StoreError::Decode);
}
