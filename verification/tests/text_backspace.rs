use attributed_text::graphics::Color;
use attributed_text::graphics::Rectangle;
use attributed_text::platform::history::Action;
use attributed_text::text::attributed_string::Attribute;
use attributed_text::text::attributed_string::Key;
use attributed_text::ui::history::text_field::carat_snapshot::CaratSnapshot;
use attributed_text::ui::history::text_field::text_backspace::TextBackspace;
use attributed_text::ui::view::store::ViewStore;
use attributed_text::ui::view::text_field::CursorMovement;
use attributed_text::ui::view::text_field::TextField;

#[test]
fn test_single_cursor_single_character() {
    let frame = Rectangle::new(0, 0, 100, 100);
    let mut views = ViewStore::new();
    let text_field = views.insert(TextField::new(frame, "abc".to_string()));
    let mut carats = Vec::new();
    carats.push(CaratSnapshot::new(3, None));

    let mut action = TextBackspace::new(text_field, 1, CursorMovement::Character, carats);
    action.forward(&mut views);
    assert_eq!(views.text_field(text_field).label().text().text(), "ab");
    assert_eq!(views.text_field(text_field).carat_indexes(), vec![2]);
    action.backward(&mut views);
    assert_eq!(views.text_field(text_field).label().text().text(), "abc");
    assert_eq!(views.text_field(text_field).carat_indexes(), vec![3]);
}

#[test]
fn test_single_cursor_multiple_characters() {
    let frame = Rectangle::new(0, 0, 100, 100);
    let mut views = ViewStore::new();
    let text_field = views.insert(TextField::new(frame, "abc".to_string()));
    let mut carats = Vec::new();
    carats.push(CaratSnapshot::new(3, None));

    let mut action = TextBackspace::new(text_field, 2, CursorMovement::Character, carats);
    action.forward(&mut views);
    assert_eq!(views.text_field(text_field).label().text().text(), "a");
    assert_eq!(views.text_field(text_field).carat_indexes(), vec![1]);
    action.backward(&mut views);
    assert_eq!(views.text_field(text_field).label().text().text(), "abc");
    assert_eq!(views.text_field(text_field).carat_indexes(), vec![3]);
}

#[test]
fn test_single_cursor_word() {
    let frame = Rectangle::new(0, 0, 100, 100);
    let mut views = ViewStore::new();
    let text_field = views.insert(TextField::new(frame, "abc def".to_string()));
    let mut carats = Vec::new();
    carats.push(CaratSnapshot::new(7, None));

    let mut action = TextBackspace::new(text_field, 1, CursorMovement::Word, carats);
    action.forward(&mut views);
    assert_eq!(views.text_field(text_field).label().text().text(), "abc ");
    assert_eq!(views.text_field(text_field).carat_indexes(), vec![4]);
    action.backward(&mut views);
    assert_eq!(views.text_field(text_field).label().text().text(), "abc def");
    assert_eq!(views.text_field(text_field).carat_indexes(), vec![7]);
}

#[test]
fn test_single_cursor_line() {
    let frame = Rectangle::new(0, 0, 100, 100);
    let mut views = ViewStore::new();
    let text_field = views.insert(TextField::new(frame, "abc def".to_string()));
    let mut carats = Vec::new();
    carats.push(CaratSnapshot::new(7, None));

    let mut action = TextBackspace::new(text_field, 1, CursorMovement::Line, carats);
    action.forward(&mut views);
    assert_eq!(views.text_field(text_field).label().text().text(), "");
    assert_eq!(views.text_field(text_field).carat_indexes(), vec![0]);
    action.backward(&mut views);
    assert_eq!(views.text_field(text_field).label().text().text(), "abc def");
    assert_eq!(views.text_field(text_field).carat_indexes(), vec![7]);
}

#[test]
fn test_multiple_cursors_single_character() {
    let frame = Rectangle::new(0, 0, 100, 100);
    let mut views = ViewStore::new();
    let text_field = views.insert(TextField::new(frame, "abc".to_string()));
    let mut carats = Vec::new();
    carats.push(CaratSnapshot::new(1, None));
    carats.push(CaratSnapshot::new(3, None));

    let mut action = TextBackspace::new(text_field, 1, CursorMovement::Character, carats);
    action.forward(&mut views);
    assert_eq!(views.text_field(text_field).label().text().text(), "b");
    assert_eq!(views.text_field(text_field).carat_indexes(), vec![0, 1]);
    action.backward(&mut views);
    assert_eq!(views.text_field(text_field).label().text().text(), "abc");
    assert_eq!(views.text_field(text_field).carat_indexes(), vec![1, 3]);
}

#[test]
fn test_multiple_cursors_multiple_characters() {
    let frame = Rectangle::new(0, 0, 100, 100);
    let mut views = ViewStore::new();
    let text_field = views.insert(TextField::new(frame, "abc".to_string()));
    let mut carats = Vec::new();
    carats.push(CaratSnapshot::new(1, None));
    carats.push(CaratSnapshot::new(3, None));

    let mut action = TextBackspace::new(text_field, 1, CursorMovement::Character, carats);
    action.forward(&mut views);
    assert_eq!(views.text_field(text_field).label().text().text(), "b");
    assert_eq!(views.text_field(text_field).carat_indexes(), vec![0, 1]);
    action.backward(&mut views);
    assert_eq!(views.text_field(text_field).label().text().text(), "abc");
    assert_eq!(views.text_field(text_field).carat_indexes(), vec![1, 3]);
}

#[test]
fn test_multiple_cursors_word() {
    let frame = Rectangle::new(0, 0, 100, 100);
    let mut views = ViewStore::new();
    let text_field = views.insert(TextField::new(frame, "abc def".to_string()));
    let mut carats = Vec::new();
    carats.push(CaratSnapshot::new(3, None));
    carats.push(CaratSnapshot::new(7, None));

    let mut action = TextBackspace::new(text_field, 1, CursorMovement::Word, carats);
    action.forward(&mut views);
    assert_eq!(views.text_field(text_field).label().text().text(), " ");
    assert_eq!(views.text_field(text_field).carat_indexes(), vec![0, 1]);
    action.backward(&mut views);
    assert_eq!(views.text_field(text_field).label().text().text(), "abc def");
    assert_eq!(views.text_field(text_field).carat_indexes(), vec![3, 7]);
}

#[test]
fn test_multiple_cursors_line() {
    let frame = Rectangle::new(0, 0, 100, 100);
    let mut views = ViewStore::new();
    let text_field = views.insert(TextField::new(frame, "abc def".to_string()));
    let mut carats = Vec::new();
    carats.push(CaratSnapshot::new(3, None));
    carats.push(CaratSnapshot::new(7, None));

    let mut action = TextBackspace::new(text_field, 1, CursorMovement::Line, carats);
    action.forward(&mut views);
    assert_eq!(views.text_field(text_field).label().text().text(), "");
    assert_eq!(views.text_field(text_field).carat_indexes(), vec![0, 0]);
    action.backward(&mut views);
    assert_eq!(views.text_field(text_field).label().text().text(), "abc def");
    assert_eq!(views.text_field(text_field).carat_indexes(), vec![3, 7]);
}

#[test]
fn test_deletion_with_selection_single_cursor() {
    let frame = Rectangle::new(0, 0, 100, 100);
    let mut views = ViewStore::new();
    let text_field = views.insert(TextField::new(frame, "abc def".to_string()));
    let mut carats = Vec::new();
    carats.push(CaratSnapshot::new(0, None));

    let mut action = TextBackspace::new(text_field, 1, CursorMovement::Character, carats);
    action.forward(&mut views);

    // A carat at the start of the text has nothing before it to delete.
    assert_eq!(views.text_field(text_field).label().text().text(), "abc def");
    assert_eq!(views.text_field(text_field).carat_indexes(), vec![0]);
    action.backward(&mut views);
    assert_eq!(views.text_field(text_field).label().text().text(), "abc def");
    assert_eq!(views.text_field(text_field).carat_indexes(), vec![0]);
}

#[test]
fn test_deletion_with_selection_single_cursor_when_specifying_word() {
    let frame = Rectangle::new(0, 0, 100, 100);
    let mut views = ViewStore::new();
    let text_field = views.insert(TextField::new(frame, "abc def".to_string()));
    let mut carats = Vec::new();
    carats.push(CaratSnapshot::new(0, None));

    let mut action = TextBackspace::new(text_field, 1, CursorMovement::Word, carats);
    assert_eq!(action.name(), "TextBackspace");
    action.forward(&mut views);
    assert_eq!(views.text_field(text_field).label().text().text(), "abc def");
    assert_eq!(views.text_field(text_field).carat_indexes(), vec![0]);
}

#[test]
fn backspace_deletes_selection_whatever_the_movement() {
    let frame = Rectangle::new(0, 0, 100, 100);
    let mut views = ViewStore::new();
    let text_field = views.insert(TextField::new(frame, "abc def".to_string()));
    let carats = vec![CaratSnapshot::new(6, Some(4..6))];

    let mut action = TextBackspace::new(text_field, 3, CursorMovement::Line, carats);
    action.forward(&mut views);
    assert_eq!(views.text_field(text_field).label().text().text(), "abc f");
    assert_eq!(views.text_field(text_field).carat_snapshots(), vec![CaratSnapshot::new(4, None)]);
    action.backward(&mut views);
    assert_eq!(views.text_field(text_field).label().text().text(), "abc def");
    assert_eq!(
        views.text_field(text_field).carat_snapshots(),
        vec![CaratSnapshot::new(6, Some(4..6))]
    );
}

#[test]
fn backspace_mixes_selections_and_plain_carats() {
    let frame = Rectangle::new(0, 0, 100, 100);
    let mut views = ViewStore::new();
    let text_field = views.insert(TextField::new(frame, "one two three".to_string()));
    let carats = vec![CaratSnapshot::new(0, Some(0..2)), CaratSnapshot::new(7, None), CaratSnapshot::new(13, None)];

    let mut action = TextBackspace::new(text_field, 1, CursorMovement::Word, carats);
    action.forward(&mut views);
    assert_eq!(views.text_field(text_field).label().text().text(), "e  ");
    assert_eq!(views.text_field(text_field).carat_indexes(), vec![0, 2, 3]);
    action.backward(&mut views);
    assert_eq!(views.text_field(text_field).label().text().text(), "one two three");
    assert_eq!(views.text_field(text_field).carat_indexes(), vec![0, 7, 13]);
}

#[test]
fn backspace_past_an_earlier_carat_still_round_trips() {
    let frame = Rectangle::new(0, 0, 100, 100);
    let mut views = ViewStore::new();
    let text_field = views.insert(TextField::new(frame, "abcdef".to_string()));
    let carats = vec![CaratSnapshot::new(4, None), CaratSnapshot::new(5, None)];

    let mut action = TextBackspace::new(text_field, 2, CursorMovement::Character, carats);
    action.forward(&mut views);
    assert_eq!(views.text_field(text_field).label().text().text(), "af");
    assert_eq!(views.text_field(text_field).carat_indexes(), vec![2, 1]);
    action.backward(&mut views);
    assert_eq!(views.text_field(text_field).label().text().text(), "abcdef");
    assert_eq!(views.text_field(text_field).carat_indexes(), vec![4, 5]);
}

#[test]
fn backspace_by_character_stops_at_the_start() {
    let frame = Rectangle::new(0, 0, 100, 100);
    let mut views = ViewStore::new();
    let text_field = views.insert(TextField::new(frame, "abc".to_string()));
    let carats = vec![CaratSnapshot::new(2, None)];

    let mut action = TextBackspace::new(text_field, 10, CursorMovement::Character, carats);
    action.forward(&mut views);
    assert_eq!(views.text_field(text_field).label().text().text(), "c");
    assert_eq!(views.text_field(text_field).carat_indexes(), vec![0]);
}

#[test]
fn backspace_of_no_steps_deletes_nothing() {
    let frame = Rectangle::new(0, 0, 100, 100);
    let mut views = ViewStore::new();
    let text_field = views.insert(TextField::new(frame, "abc def".to_string()));
    for movement in [CursorMovement::Character, CursorMovement::Word, CursorMovement::Line] {
        let mut action = TextBackspace::new(text_field, 0, movement, vec![CaratSnapshot::new(7, None)]);
        action.forward(&mut views);
        assert_eq!(views.text_field(text_field).label().text().text(), "abc def");
        assert_eq!(views.text_field(text_field).carat_indexes(), vec![7]);
    }
}

#[test]
fn backspace_by_word_or_line_takes_one_step_however_many_are_asked() {
    let frame = Rectangle::new(0, 0, 100, 100);
    let mut views = ViewStore::new();
    let text_field = views.insert(TextField::new(frame, "ab cd\nef gh".to_string()));

    let mut by_word = TextBackspace::new(text_field, 3, CursorMovement::Word, vec![CaratSnapshot::new(11, None)]);
    by_word.forward(&mut views);
    assert_eq!(views.text_field(text_field).label().text().text(), "ab cd\nef ");
    by_word.backward(&mut views);

    let mut by_line = TextBackspace::new(text_field, 3, CursorMovement::Line, vec![CaratSnapshot::new(11, None)]);
    by_line.forward(&mut views);
    assert_eq!(views.text_field(text_field).label().text().text(), "ab cd\n");
    assert_eq!(views.text_field(text_field).carat_indexes(), vec![6]);
    by_line.backward(&mut views);
    assert_eq!(views.text_field(text_field).label().text().text(), "ab cd\nef gh");
}

#[test]
fn backspace_by_word_right_behind_white_space_deletes_nothing() {
    let frame = Rectangle::new(0, 0, 100, 100);
    let mut views = ViewStore::new();
    let text_field = views.insert(TextField::new(frame, "abc def".to_string()));

    let mut action = TextBackspace::new(text_field, 1, CursorMovement::Word, vec![CaratSnapshot::new(4, None)]);
    action.forward(&mut views);
    assert_eq!(views.text_field(text_field).label().text().text(), "abc def");
    assert_eq!(views.text_field(text_field).carat_indexes(), vec![4]);
}

#[test]
fn line_backspace_on_one_line_reaches_the_start_from_anywhere() {
    let frame = Rectangle::new(0, 0, 100, 100);
    for at in 0..=7 {
        let mut views = ViewStore::new();
        let text_field = views.insert(TextField::new(frame, "abc def".to_string()));
        let mut action = TextBackspace::new(text_field, 1, CursorMovement::Line, vec![CaratSnapshot::new(at, None)]);
        action.forward(&mut views);
        assert_eq!(views.text_field(text_field).label().text().text(), &"abc def"[at..]);
        assert_eq!(views.text_field(text_field).carat_indexes(), vec![0]);
    }
}

#[test]
fn backward_before_forward_does_nothing() {
    let frame = Rectangle::new(0, 0, 100, 100);
    let mut views = ViewStore::new();
    let text_field = views.insert(TextField::new(frame, "abc".to_string()));
    let mut action = TextBackspace::new(text_field, 1, CursorMovement::Character, vec![CaratSnapshot::new(3, None)]);
    action.backward(&mut views);
    assert_eq!(views.text_field(text_field).label().text().text(), "abc");
    assert_eq!(views.text_field(text_field).carat_indexes(), vec![0]);
    assert_eq!(action.text_field(&views).carat_indexes(), vec![0]);
}

#[test]
fn backspace_keeps_the_formatting_of_what_stays() {
    let frame = Rectangle::new(0, 0, 100, 100);
    let mut text = TextField::new(frame, "abc".to_string());
    text.restore_carat_snapshots(&vec![CaratSnapshot::new(2, None)]);
    let removed = text.backspace(CursorMovement::Character, 1);
    assert_eq!(removed, vec!["b".to_string()]);
    assert_eq!(text.label().text().text(), "ac");
    assert_eq!(text.label().text().get_attribute_for(1, Key::Color), &Attribute::Color { color: Color::black() });
}
