use bangumi_download::tui::editor::{Cursor, Direction, Editor, SpanStyle};

fn spans(editor: &Editor) -> Vec<(String, SpanStyle)> {
    editor.line_spans()
}

fn select(begin: usize, end: usize, direction: Direction) -> Editor {
    Editor::with_cursor("番剧下载器".to_string(), Cursor::Select { begin, end, direction })
}

#[test]
fn test_selection() {
    let editor = select(1, 3, Direction::Left);
    let text = spans(&editor);
    let expect_text = vec![
        ("番".to_string(), SpanStyle::Plain),
        ("剧".to_string(), SpanStyle::Reversed),
        ("下载".to_string(), SpanStyle::Selected),
        ("器".to_string(), SpanStyle::Plain),
    ];
    assert_eq!(text, expect_text);
    let editor = select(1, 4, Direction::Left);
    let text = spans(&editor);
    println!("1-4: {:?}", text);
    let editor = select(1, 5, Direction::Left);
    let text = spans(&editor);
    println!("1-5: {:?}", text);
    let editor = select(4, 5, Direction::Left);
    let text = spans(&editor);
    println!("4-5: {:?}", text);
    let editor = select(4, 4, Direction::Left);
    let text = spans(&editor);
    println!("4-4: {:?}", text);
    let editor = select(5, 5, Direction::Left);
    let text = spans(&editor);
    println!("5-5: {:?}", text);
}

#[test]
fn test_right_cursor() {
    let editor = select(1, 3, Direction::Right);
    println!("Right cursor: 1-3: {:?}", spans(&editor));
    let editor = select(1, 4, Direction::Right);
    println!("Right cursor: 1-4: {:?}", spans(&editor));
    let editor = select(1, 5, Direction::Right);
    println!("Right cursor: 1-5: {:?}", spans(&editor));
    let editor = select(4, 4, Direction::Right);
    println!("Right cursor: 4-4: {:?}", spans(&editor));
    let editor = select(5, 5, Direction::Right);
    println!("Right cursor: 5-5: {:?}", spans(&editor));
}

#[test]
fn selection_to_the_right_shows_cursor_at_end() {
    let editor = select(1, 3, Direction::Right);
    assert_eq!(
        spans(&editor),
        vec![
            ("番".to_string(), SpanStyle::Plain),
            ("剧下".to_string(), SpanStyle::Selected),
            ("载".to_string(), SpanStyle::Reversed),
            ("器".to_string(), SpanStyle::Plain),
        ]
    );
}

#[test]
fn selection_past_the_end_shows_a_blank() {
    let editor = select(4, 5, Direction::Left);
    assert_eq!(
        spans(&editor),
        vec![
            ("番剧下载".to_string(), SpanStyle::Plain),
            ("器".to_string(), SpanStyle::Reversed),
            ("".to_string(), SpanStyle::Selected),
            (" ".to_string(), SpanStyle::Selected),
        ]
    );
}

#[test]
fn empty_editor_shows_a_reversed_blank() {
    let editor = Editor::new();
    assert!(editor.is_empty());
    assert_eq!(spans(&editor), vec![(" ".to_string(), SpanStyle::Reversed)]);
}

#[test]
fn typing_goes_after_the_last_character_typed() {
    let mut editor = Editor::new();
    for c in "abc".chars() {
        editor.insert(c);
    }
    assert_eq!(editor.as_str(), "abc");
    assert_eq!(editor.cursor(), Cursor::Normal { index: 3 });
    editor.left_arrow();
    editor.insert('x');
    assert_eq!(editor.as_str(), "abxc");
    assert_eq!(editor.content_len(), 4);
}

#[test]
fn backspace_deletes_cluster_before_cursor() {
    let mut editor = Editor::new_with_text("番剧".to_string());
    editor.right_arrow();
    editor.right_arrow();
    assert_eq!(editor.cursor(), Cursor::Normal { index: 2 });
    editor.backspace();
    assert_eq!(editor.as_str(), "番");
    assert_eq!(editor.cursor(), Cursor::Normal { index: 1 });
}

#[test]
fn right_arrow_stops_after_last_cluster() {
    let mut editor = Editor::new_with_text("ab".to_string());
    editor.right_arrow();
    editor.right_arrow();
    editor.right_arrow();
    assert_eq!(editor.cursor(), Cursor::Normal { index: 2 });
    editor.left_arrow();
    assert_eq!(editor.cursor(), Cursor::Normal { index: 1 });
}

#[test]
fn left_then_right_returns() {
    let mut editor = Editor::new_with_text("hello".to_string());
    editor.right_arrow();
    editor.right_arrow();
    let before = editor.cursor();
    editor.right_arrow();
    editor.left_arrow();
    assert_eq!(editor.cursor(), before);
}

#[test]
fn select_all_then_backspace_clears() {
    let mut editor = Editor::new_with_text("abc".to_string());
    editor.select_all();
    assert_eq!(editor.cursor(), Cursor::Select { begin: 0, end: 3, direction: Direction::Right });
    editor.backspace();
    assert!(editor.is_empty());
    assert_eq!(editor.cursor(), Cursor::Normal { index: 0 });
}

#[test]
fn shift_arrows_grow_a_selection() {
    let mut editor = Editor::new_with_text("abcd".to_string());
    editor.right_arrow_shift();
    assert_eq!(editor.cursor(), Cursor::Select { begin: 0, end: 1, direction: Direction::Right });
    editor.right_arrow_shift();
    assert_eq!(editor.cursor(), Cursor::Select { begin: 0, end: 2, direction: Direction::Right });
    editor.left_arrow_shift();
    assert_eq!(editor.cursor(), Cursor::Select { begin: 0, end: 1, direction: Direction::Right });
}

#[test]
fn typing_replaces_a_selection() {
    let mut editor = Editor::new_with_text("abcd".to_string());
    editor.select_all();
    editor.insert('z');
    assert_eq!(editor.into_string(), "z");
}

#[test]
fn typing_over_a_selection_replaces_every_selected_cluster() {
    let mut e = Editor::new_with_text("番剧下载器".to_string());
    e.right_arrow();
    e.right_arrow_shift();
    e.right_arrow_shift();
    assert_eq!(e.cursor(), Cursor::Select { begin: 1, end: 3, direction: Direction::Right });
    e.insert('X');
    assert_eq!(e.as_str(), "番X器");
    assert_eq!(e.cursor(), Cursor::Normal { index: 2 });
}

#[test]
fn backspace_removes_the_whole_selection() {
    let mut e = Editor::new_with_text("番剧下载器".to_string());
    e.right_arrow();
    e.right_arrow_shift();
    e.right_arrow_shift();
    e.backspace();
    assert_eq!(e.as_str(), "番器");
    assert_eq!(e.cursor(), Cursor::Normal { index: 1 });
    let mut a = Editor::new_with_text("abcde".to_string());
    a.right_arrow();
    a.right_arrow_shift();
    a.right_arrow_shift();
    a.backspace();
    assert_eq!(a.as_str(), "ae");
}

#[test]
fn cursor_moves_never_change_the_text() {
    let s = "番剧 download".to_string();
    let mut e = Editor::new_with_text(s.clone());
    e.right_arrow();
    e.right_arrow_shift();
    e.left_arrow();
    e.select_all();
    e.left_arrow_shift();
    e.right_arrow();
    e.left_arrow_shift();
    e.right_arrow_shift();
    assert_eq!(e.into_string(), s);
}
