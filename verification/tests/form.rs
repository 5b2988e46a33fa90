use sir::form::{title, Action, Field, Form, Message, State, Step, AUXILIARIES};
use sir::preferences::Preferences;

fn start() -> Form {
    Form::new().0
}

fn text(s: &str) -> String {
    String::from(s)
}

#[test]
fn the_window_starts_with_the_form() {
    assert_eq!(State::default(), State::Entry);
    let (form, action) = Form::new();
    assert_eq!(form.state, State::Entry);
    assert_eq!(form.src_path_text, "");
    assert_eq!(form.dest_path_text, "");
    assert_eq!(AUXILIARIES, 2);
    assert_eq!(form.aux_name_text, vec![String::new(), String::new()]);
    assert_eq!(form.aux_col_text, vec![String::new(), String::new()]);
    assert!(matches!(action, Action::LoadPreferences));
}

#[test]
fn typing_changes_one_text() {
    let mut form = start();
    assert!(matches!(form.update(Message::SrcPathInputChanged(text("a.xlsx"))), Action::Nothing));
    assert!(matches!(form.update(Message::SrcSheetInputChanged(text("Sheet1"))), Action::Nothing));
    assert!(matches!(form.update(Message::SrcColumnInputChanged(text("D"))), Action::Nothing));
    assert!(matches!(form.update(Message::DestPathInputChanged(text("out.xlsx"))), Action::Nothing));
    assert_eq!(form.src_path_text, "a.xlsx");
    assert_eq!(form.src_sheet_text, "Sheet1");
    assert_eq!(form.src_column_text, "D");
    assert_eq!(form.dest_path_text, "out.xlsx");
    assert_eq!(form.state, State::Entry);
}

#[test]
fn typing_into_an_additional_column() {
    let mut form = start();
    form.update(Message::AuxNameInputChanged { id: 1, value: text("Status") });
    form.update(Message::AuxColInputChanged { id: 0, value: text("E") });
    assert_eq!(form.aux_name_text, vec![text(""), text("Status")]);
    assert_eq!(form.aux_col_text, vec![text("E"), text("")]);
    // there is no third column
    form.update(Message::AuxNameInputChanged { id: 2, value: text("lost") });
    form.update(Message::AuxColInputChanged { id: 7, value: text("lost") });
    assert_eq!(form.aux_name_text, vec![text(""), text("Status")]);
    assert_eq!(form.aux_col_text, vec![text("E"), text("")]);
}

#[test]
fn nothing_changes_nothing() {
    let mut form = start();
    form.update(Message::SrcPathInputChanged(text("a.xlsx")));
    assert!(matches!(form.update(Message::Nothing), Action::Nothing));
    assert!(matches!(form.update(Message::StorePreferences(Ok(()))), Action::Nothing));
    assert!(matches!(form.update(Message::StorePreferences(Err(text("disk full")))), Action::Nothing));
    assert_eq!(form.src_path_text, "a.xlsx");
    assert_eq!(form.state, State::Entry);
    assert_eq!(form.error_text, "");
}

#[test]
fn generate_asks_for_a_list() {
    let mut form = start();
    form.update(Message::SrcPathInputChanged(text("a.xlsx")));
    form.update(Message::SrcSheetInputChanged(text("Sheet1")));
    form.update(Message::SrcColumnInputChanged(text("D")));
    form.update(Message::DestPathInputChanged(text("out.xlsx")));
    form.update(Message::AuxNameInputChanged { id: 1, value: text("Status") });
    form.update(Message::AuxColInputChanged { id: 1, value: text("E") });
    match form.update(Message::GeneratePressed) {
        Action::Generate(request) => {
            assert_eq!(request.src_path, "a.xlsx");
            assert_eq!(request.src_sheet, "Sheet1");
            assert_eq!(request.src_column, "D");
            assert_eq!(request.dest_path, "out.xlsx");
            assert!(!request.options.show_price);
            assert_eq!(request.options.auxiliaries, vec![(text("Status"), text("E"))]);
        }
        other => panic!("expected a request, got {:?}", other),
    }
    assert_eq!(form.state, State::Entry);
}

#[test]
fn blank_additional_columns_are_not_asked_for() {
    let mut form = start();
    assert!(form.options().auxiliaries.is_empty());
    form.update(Message::AuxNameInputChanged { id: 0, value: text("Only a name") });
    form.update(Message::AuxColInputChanged { id: 1, value: text("F") });
    assert_eq!(
        form.options().auxiliaries,
        vec![(text("Only a name"), text("")), (text(""), text("F"))]
    );
    assert_eq!(
        form.auxiliary_pairs(),
        vec![(text("Only a name"), text("")), (text(""), text("F"))]
    );
    form.update(Message::AuxNameInputChanged { id: 0, value: text("") });
    assert_eq!(form.options().auxiliaries, vec![(text(""), text("F"))]);
    assert_eq!(form.auxiliary_pairs(), vec![(text(""), text("")), (text(""), text("F"))]);
}

#[test]
fn a_written_list_shows_the_result_and_stores_the_texts() {
    let mut form = start();
    form.update(Message::SrcPathInputChanged(text("a.xlsx")));
    form.update(Message::SrcSheetInputChanged(text("Sheet1")));
    form.update(Message::SrcColumnInputChanged(text("D")));
    form.update(Message::DestPathInputChanged(text("out.xlsx")));
    form.update(Message::AuxColInputChanged { id: 1, value: text("E") });
    match form.update(Message::Generated { participants: 12 }) {
        Action::StorePreferences(preferences) => {
            assert_eq!(preferences.src_path, "a.xlsx");
            assert_eq!(preferences.src_sheet, "Sheet1");
            assert_eq!(preferences.src_column, "D");
            assert_eq!(preferences.dest_path, "out.xlsx");
            assert_eq!(
                preferences.auxiliaries,
                Some(vec![(text(""), text("")), (text(""), text("E"))])
            );
        }
        other => panic!("expected preferences, got {:?}", other),
    }
    assert_eq!(form.state, State::Result);
    assert_eq!(form.result_text, "Successfully wrote data of 12 participants to out.xlsx");
}

#[test]
fn an_empty_list_is_counted_as_zero() {
    let mut form = start();
    form.update(Message::Generated { participants: 0 });
    assert_eq!(form.result_text, "Successfully wrote data of 0 participants to ");
}

#[test]
fn a_failure_shows_its_message() {
    for (step, expected) in [
        (Step::Open, "Could not open spreadsheet file: no such file"),
        (Step::Read, "Could not read course list: no such file"),
        (Step::Write, "Could not write course list: no such file"),
    ] {
        let mut form = start();
        let action = form.update(Message::Failed { step, detail: text("no such file") });
        assert!(matches!(action, Action::Nothing));
        assert_eq!(form.state, State::Error);
        assert_eq!(form.error_text, expected);
    }
}

#[test]
fn back_returns_to_the_form() {
    let mut form = start();
    form.update(Message::Failed { step: Step::Open, detail: text("x") });
    assert_eq!(form.state, State::Error);
    assert!(matches!(form.update(Message::BackPressed), Action::Nothing));
    assert_eq!(form.state, State::Entry);
    assert_eq!(form.error_text, "Could not open spreadsheet file: x");
    form.update(Message::Generated { participants: 1 });
    assert_eq!(form.state, State::Result);
    form.update(Message::BackPressed);
    assert_eq!(form.state, State::Entry);
    form.update(Message::BackPressed);
    assert_eq!(form.state, State::Entry);
}

#[test]
fn loaded_preferences_fill_the_form() {
    let mut form = start();
    form.update(Message::AuxNameInputChanged { id: 0, value: text("old") });
    let action = form.update(Message::LoadPreferences(Preferences {
        src_path: text("a.xlsx"),
        src_sheet: text("Sheet1"),
        src_column: text("D"),
        dest_path: text("out.xlsx"),
        auxiliaries: Some(vec![(text("Status"), text("E"))]),
    }));
    assert!(matches!(action, Action::Nothing));
    assert_eq!(form.src_path_text, "a.xlsx");
    assert_eq!(form.src_sheet_text, "Sheet1");
    assert_eq!(form.src_column_text, "D");
    assert_eq!(form.dest_path_text, "out.xlsx");
    assert_eq!(form.aux_name_text, vec![text("Status"), text("")]);
    assert_eq!(form.aux_col_text, vec![text("E"), text("")]);
}

#[test]
fn surplus_additional_columns_are_cut() {
    let mut form = start();
    form.update(Message::LoadPreferences(Preferences {
        auxiliaries: Some(vec![
            (text("a"), text("A")),
            (text("b"), text("B")),
            (text("c"), text("C")),
        ]),
        ..Preferences::default()
    }));
    assert_eq!(form.aux_name_text, vec![text("a"), text("b")]);
    assert_eq!(form.aux_col_text, vec![text("A"), text("B")]);
}

#[test]
fn preferences_without_additional_columns_leave_them() {
    let mut form = start();
    form.update(Message::AuxNameInputChanged { id: 0, value: text("kept") });
    form.update(Message::SrcPathInputChanged(text("old.xlsx")));
    form.update(Message::LoadPreferences(Preferences::default()));
    assert_eq!(form.src_path_text, "");
    assert_eq!(form.aux_name_text, vec![text("kept"), text("")]);
}

#[test]
fn the_title_names_version_and_authors() {
    assert_eq!(title("0.3.1", "N. N."), "SiR Course List Generator Version 0.3.1 by N. N.");
    assert_eq!(title("", ""), "SiR Course List Generator Version  by ");
}

fn filled() -> Form {
    let mut form = start();
    form.update(Message::SrcPathInputChanged(text("a.xlsx")));
    form.update(Message::SrcSheetInputChanged(text("Sheet1")));
    form.update(Message::SrcColumnInputChanged(text("D")));
    form.update(Message::DestPathInputChanged(text("out.xlsx")));
    form
}

#[test]
fn a_filled_form_has_no_blank_field() {
    assert_eq!(filled().blank_field(), None);
    assert_eq!(start().blank_field(), Some(Field::SourcePath));
}

#[test]
fn the_first_blank_field_is_named() {
    let mut form = filled();
    form.update(Message::DestPathInputChanged(text("")));
    assert_eq!(form.blank_field(), Some(Field::DestinationPath));
    form.update(Message::SrcColumnInputChanged(text("")));
    assert_eq!(form.blank_field(), Some(Field::Column));
    form.update(Message::SrcSheetInputChanged(text("")));
    assert_eq!(form.blank_field(), Some(Field::Sheet));
    form.update(Message::SrcPathInputChanged(text("")));
    assert_eq!(form.blank_field(), Some(Field::SourcePath));
}

#[test]
fn a_blank_field_is_rejected_before_anything_is_read() {
    for (change, expected) in [
        (Message::SrcPathInputChanged(text("")), "No path to a spreadsheet file given"),
        (Message::SrcSheetInputChanged(text("")), "No sheet name given"),
        (Message::SrcColumnInputChanged(text("")), "No column given"),
        (Message::DestPathInputChanged(text("")), "No path for the course list given"),
    ] {
        let mut form = filled();
        form.update(change);
        assert!(matches!(form.update(Message::GeneratePressed), Action::Nothing));
        assert_eq!(form.state, State::Error);
        assert_eq!(form.error_text, expected);
    }
}

#[test]
fn messages_can_be_copied() {
    let message = Message::AuxNameInputChanged { id: 1, value: text("Status") };
    let mut first = start();
    let mut second = start();
    first.update(message.clone());
    second.update(message);
    assert_eq!(first.aux_name_text, second.aux_name_text);
    assert!(matches!(
        Message::StorePreferences(Err(text("x"))).clone(),
        Message::StorePreferences(Err(why)) if why == "x"
    ));
    assert!(matches!(
        Message::Failed { step: Step::Read, detail: text("d") }.clone(),
        Message::Failed { step: Step::Read, detail } if detail == "d"
    ));
}
