use attributed_text::graphics::Rectangle;
use attributed_text::platform::history::Action;
use attributed_text::ui::history::text_field::carat_snapshot::CaratSnapshot;
use attributed_text::ui::history::text_field::text_insertion::TextInsertion;
use attributed_text::ui::view::store::ViewStore;
use attributed_text::ui::view::text_field::TextField;

#[test]
fn test_forward() {
    let frame = Rectangle::new(0, 0, 100, 100);
    let mut views = ViewStore::new();
    let text_field = views.insert(TextField::new(frame, "".to_string()));

    let mut carats = Vec::new();
    carats.push(CaratSnapshot::new(0, None));

    let mut text_insertion = TextInsertion::new(text_field, "Hello".to_string(), carats);

    text_insertion.forward(&mut views);

    assert_eq!(views.text_field(text_field).label().text().text(), "Hello");
    assert_eq!(views.text_field(text_field).carat_indexes(), vec![5]);
}

#[test]
fn test_forward_multi_cursor() {
    let frame = Rectangle::new(0, 0, 100, 100);
    let mut views = ViewStore::new();
    let text_field = views.insert(TextField::new(frame, "|".to_string()));

    let mut carats = Vec::new();
    carats.push(CaratSnapshot::new(0, None));
    carats.push(CaratSnapshot::new(1, None));

    let mut text_insertion = TextInsertion::new(text_field, "Hello".to_string(), carats);

    text_insertion.forward(&mut views);

    assert_eq!(views.text_field(text_field).label().text().text(), "Hello|Hello");
    assert_eq!(views.text_field(text_field).carat_indexes(), vec![5, 11]);
}

#[test]
fn test_backward() {
    let frame = Rectangle::new(0, 0, 100, 100);
    let mut views = ViewStore::new();
    let text_field = views.insert(TextField::new(frame, "".to_string()));

    let mut carats = Vec::new();
    carats.push(CaratSnapshot::new(0, None));

    let mut text_insertion = TextInsertion::new(text_field, "Hello".to_string(), carats);

    text_insertion.forward(&mut views);
    text_insertion.backward(&mut views);

    assert_eq!(views.text_field(text_field).label().text().text(), "");
    assert_eq!(views.text_field(text_field).carat_indexes(), vec![0]);
}

#[test]
fn test_backward_multi_cursor() {
    let frame = Rectangle::new(0, 0, 100, 100);
    let mut views = ViewStore::new();
    let text_field = views.insert(TextField::new(frame, "|".to_string()));

    let mut carats = Vec::new();
    carats.push(CaratSnapshot::new(0, None));
    carats.push(CaratSnapshot::new(1, None));

    let mut text_insertion = TextInsertion::new(text_field, "Hello".to_string(), carats);

    text_insertion.forward(&mut views);

    assert_eq!(views.text_field(text_field).label().text().text(), "Hello|Hello");

    let carats = views.text_field(text_field).carat_snapshots();
    assert_eq!(carats.len(), 2);
    assert_eq!(carats[0].character_index(), 5);
    assert_eq!(carats[0].selection(), &None);
    assert_eq!(carats[1].character_index(), 11);
    assert_eq!(carats[1].selection(), &None);

    text_insertion.backward(&mut views);

    assert_eq!(views.text_field(text_field).label().text().text(), "|");
    let carats = views.text_field(text_field).carat_snapshots();
    assert_eq!(carats.len(), 2);
    assert_eq!(carats[0].character_index(), 0);
    assert_eq!(carats[0].selection(), &None);
    assert_eq!(carats[1].character_index(), 1);
    assert_eq!(carats[1].selection(), &None);
}

#[test]
fn test_insertion_with_selection() {
    let frame = Rectangle::new(0, 0, 100, 100);
    let mut views = ViewStore::new();
    let text_field = views.insert(TextField::new(frame, "Hi world".to_string()));

    let mut carats = Vec::new();
    carats.push(CaratSnapshot::new(0, Some(0..2)));

    let mut text_insertion = TextInsertion::new(text_field, "Hello".to_string(), carats);

    text_insertion.forward(&mut views);

    assert_eq!(views.text_field(text_field).label().text().text(), "Hello world");
    let carats = views.text_field(text_field).carat_snapshots();
    assert_eq!(carats.len(), 1);
    assert_eq!(carats[0].character_index(), 5);
    assert_eq!(carats[0].selection(), &None);
}

#[test]
fn insertion_of_wide_characters_round_trips() {
    let frame = Rectangle::new(0, 0, 100, 100);
    let mut views = ViewStore::new();
    let text_field = views.insert(TextField::new(frame, "a|b".to_string()));
    let carats = vec![CaratSnapshot::new(1, None), CaratSnapshot::new(2, None)];

    let mut text_insertion = TextInsertion::new(text_field, "héé".to_string(), carats);
    assert_eq!(text_insertion.name(), "TextInsertion");
    text_insertion.forward(&mut views);
    assert_eq!(views.text_field(text_field).label().text().text(), "ahéé|héé" .to_string() + "b");
    assert_eq!(views.text_field(text_field).carat_indexes(), vec![4, 8]);
    text_insertion.backward(&mut views);
    assert_eq!(views.text_field(text_field).label().text().text(), "a|b");
    assert_eq!(views.text_field(text_field).carat_indexes(), vec![1, 2]);
}

#[test]
fn insertion_over_selections_shifts_later_carats_by_the_difference() {
    let frame = Rectangle::new(0, 0, 100, 100);
    let mut views = ViewStore::new();
    let text_field = views.insert(TextField::new(frame, "abcdefgh".to_string()));
    let carats = vec![CaratSnapshot::new(4, Some(1..4)), CaratSnapshot::new(6, None), CaratSnapshot::new(7, Some(7..8))];

    let mut text_insertion = TextInsertion::new(text_field, "-".to_string(), carats);
    text_insertion.forward(&mut views);
    assert_eq!(views.text_field(text_field).label().text().text(), "a-ef-g-");
    assert_eq!(views.text_field(text_field).carat_indexes(), vec![2, 5, 7]);
}

#[test]
fn insertion_backward_before_forward_does_nothing() {
    let frame = Rectangle::new(0, 0, 100, 100);
    let mut views = ViewStore::new();
    let text_field = views.insert(TextField::new(frame, "abc".to_string()));
    let mut text_insertion = TextInsertion::new(text_field, "x".to_string(), vec![CaratSnapshot::new(1, None)]);
    text_insertion.backward(&mut views);
    assert_eq!(text_insertion.text_field(&views).label().text().text(), "abc");
    assert_eq!(views.text_field(text_field).carat_indexes(), vec![0]);
}

#[test]
fn insertion_of_nothing_changes_nothing() {
    let frame = Rectangle::new(0, 0, 100, 100);
    let mut views = ViewStore::new();
    let text_field = views.insert(TextField::new(frame, "abc".to_string()));
    let mut text_insertion = TextInsertion::new(text_field, "".to_string(), vec![CaratSnapshot::new(1, None)]);
    text_insertion.forward(&mut views);
    assert_eq!(views.text_field(text_field).label().text().text(), "abc");
    assert_eq!(views.text_field(text_field).carat_indexes(), vec![1]);
    text_insertion.backward(&mut views);
    assert_eq!(views.text_field(text_field).label().text().text(), "abc");
    assert_eq!(views.text_field(text_field).carat_indexes(), vec![1]);
}

#[test]
fn forward_ignores_where_the_carats_of_the_field_stand() {
    let frame = Rectangle::new(0, 0, 100, 100);
    let mut views = ViewStore::new();
    let mut field = TextField::new(frame, "abc".to_string());
    field.spawn_carat(2);
    field.spawn_carat(3);
    let text_field = views.insert(field);
    let mut text_insertion = TextInsertion::new(text_field, "x".to_string(), vec![CaratSnapshot::new(1, None)]);
    text_insertion.forward(&mut views);
    assert_eq!(views.text_field(text_field).label().text().text(), "axbc");
    assert_eq!(views.text_field(text_field).carat_indexes(), vec![2]);
}
