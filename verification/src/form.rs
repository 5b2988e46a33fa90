//! The form that asks for a workbook, a sheet, a grouping column and a
//! destination: what each event does to the form, and what is to be done
//! outside of it.

use vstd::prelude::*;
use vstd::string::*;
use crate::course_list::{CourseListOptions, OptionsView};
use crate::preferences::Preferences;
use crate::text::{natural_text, write_natural};

verus! {

/// The number of additional columns that the form asks for.
pub const AUXILIARIES: usize = 2;

/// What the window shows.
#[derive(Debug, Clone, Copy, PartialEq, Eq, Structural)]
pub enum State {
    /// The form.
    Entry,
    /// The message of a failure.
    Error,
    /// The message of a success.
    Result,
}

impl Default for State {
    /// The window starts with the form.
    fn default() -> (state: State)
        ensures
            state == State::Entry,
    {
        State::Entry
    }
}

/// The step of writing a list at which something went wrong.
#[derive(Debug, Clone, Copy, PartialEq, Eq, Structural)]
pub enum Step {
    /// Opening the workbook.
    Open,
    /// Reading the course list from the sheet.
    Read,
    /// Writing the list to its destination.
    Write,
}

/// A field of the form that a list cannot be written without.
#[derive(Debug, Clone, Copy, PartialEq, Eq, Structural)]
pub enum Field {
    /// The path of the workbook.
    SourcePath,
    /// The name of the sheet.
    Sheet,
    /// The label of the grouping column.
    Column,
    /// The path of the list.
    DestinationPath,
}

/// The texts of the form, and what the window shows.
#[derive(Debug, Clone)]
pub struct Form {
    pub src_path_text: String,
    pub src_sheet_text: String,
    pub src_column_text: String,
    pub dest_path_text: String,
    /// The headings of the additional columns.
    pub aux_name_text: Vec<String>,
    /// The column labels of the additional columns.
    pub aux_col_text: Vec<String>,
    pub error_text: String,
    pub result_text: String,
    pub state: State,
}

/// A form as contracts see it.
pub ghost struct FormView {
    pub src_path: Seq<char>,
    pub src_sheet: Seq<char>,
    pub src_column: Seq<char>,
    pub dest_path: Seq<char>,
    pub aux_names: Seq<Seq<char>>,
    pub aux_columns: Seq<Seq<char>>,
    pub error_text: Seq<char>,
    pub result_text: Seq<char>,
    pub state: State,
}

/// Texts as contracts see them.
pub open spec fn texts(list: Seq<String>) -> Seq<Seq<char>> {
    list.map_values(|text: String| text@)
}

/// Pairs of texts as contracts see them.
pub open spec fn pairs(list: Seq<(String, String)>) -> Seq<(Seq<char>, Seq<char>)> {
    list.map_values(|pair: (String, String)| (pair.0@, pair.1@))
}

impl View for Form {
    type V = FormView;

    open spec fn view(&self) -> FormView {
        FormView {
            src_path: self.src_path_text@,
            src_sheet: self.src_sheet_text@,
            src_column: self.src_column_text@,
            dest_path: self.dest_path_text@,
            aux_names: texts(self.aux_name_text@),
            aux_columns: texts(self.aux_col_text@),
            error_text: self.error_text@,
            result_text: self.result_text@,
            state: self.state,
        }
    }
}

/// What happened: something the user did, or the outcome of something that
/// was done outside of the form.
#[derive(Debug)]
pub enum Message {
    Nothing,
    SrcPathInputChanged(String),
    SrcSheetInputChanged(String),
    SrcColumnInputChanged(String),
    DestPathInputChanged(String),
    GeneratePressed,
    BackPressed,
    AuxNameInputChanged { id: usize, value: String },
    AuxColInputChanged { id: usize, value: String },
    /// The preferences of the last run were read.
    LoadPreferences(Preferences),
    /// The preferences were stored, or could not be.
    StorePreferences(Result<(), String>),
    /// The list was written, with this many participants.
    Generated { participants: usize },
    /// The list was not written: the step that failed, and why.
    Failed { step: Step, detail: String },
}

impl Clone for Message {
    fn clone(&self) -> (copy: Message) {
        match self {
            Message::Nothing => Message::Nothing,
            Message::SrcPathInputChanged(text) => Message::SrcPathInputChanged(text.clone()),
            Message::SrcSheetInputChanged(text) => Message::SrcSheetInputChanged(text.clone()),
            Message::SrcColumnInputChanged(text) => Message::SrcColumnInputChanged(text.clone()),
            Message::DestPathInputChanged(text) => Message::DestPathInputChanged(text.clone()),
            Message::GeneratePressed => Message::GeneratePressed,
            Message::BackPressed => Message::BackPressed,
            Message::AuxNameInputChanged { id, value } => Message::AuxNameInputChanged {
                id: *id,
                value: value.clone(),
            },
            Message::AuxColInputChanged { id, value } => Message::AuxColInputChanged {
                id: *id,
                value: value.clone(),
            },
            Message::LoadPreferences(preferences) => Message::LoadPreferences(preferences.clone()),
            Message::StorePreferences(Ok(())) => Message::StorePreferences(Ok(())),
            Message::StorePreferences(Err(why)) => Message::StorePreferences(Err(why.clone())),
            Message::Generated { participants } => Message::Generated {
                participants: *participants,
            },
            Message::Failed { step, detail } => Message::Failed {
                step: *step,
                detail: detail.clone(),
            },
        }
    }
}

/// What is needed to write a list.
#[derive(Debug, Clone)]
pub struct Request {
    pub src_path: String,
    pub src_sheet: String,
    pub src_column: String,
    pub dest_path: String,
    pub options: CourseListOptions,
}

/// What is to be done outside of the form.
#[derive(Debug, Clone)]
pub enum Action {
    /// Nothing.
    Nothing,
    /// Read the preferences of the last run and hand them back.
    LoadPreferences,
    /// Write the list and hand back how that went.
    Generate(Request),
    /// Store these preferences and hand back how that went.
    StorePreferences(Preferences),
}

/// The heading and the column label of each additional column, as far as
/// the form has both fields.
pub open spec fn zipped(names: Seq<Seq<char>>, columns: Seq<Seq<char>>) -> Seq<
    (Seq<char>, Seq<char>),
> {
    Seq::new(
        if names.len() <= columns.len() {
            names.len()
        } else {
            columns.len()
        },
        |i: int| (names[i], columns[i]),
    )
}

/// The test for an additional column with something in one of its two fields.
pub open spec fn filled() -> spec_fn((Seq<char>, Seq<char>)) -> bool {
    |pair: (Seq<char>, Seq<char>)| !(pair.0.len() == 0 && pair.1.len() == 0)
}

/// The options that a form asks for: no price, and the additional columns
/// that are not left blank.
pub open spec fn options_of(form: FormView) -> OptionsView {
    OptionsView {
        show_price: false,
        auxiliaries: zipped(form.aux_names, form.aux_columns).filter(filled()),
    }
}

/// `list` cut or filled up with empty texts to the number of additional columns.
pub open spec fn resized(list: Seq<Seq<char>>) -> Seq<Seq<char>> {
    Seq::new(
        AUXILIARIES as nat,
        |i: int|
            if i < list.len() {
                list[i]
            } else {
                Seq::empty()
            },
    )
}

/// The first of the four needed fields that is empty, if one is.
pub open spec fn first_blank(form: FormView) -> Option<Field> {
    if form.src_path.len() == 0 {
        Some(Field::SourcePath)
    } else if form.src_sheet.len() == 0 {
        Some(Field::Sheet)
    } else if form.src_column.len() == 0 {
        Some(Field::Column)
    } else if form.dest_path.len() == 0 {
        Some(Field::DestinationPath)
    } else {
        None
    }
}

/// The message for a needed field that is empty.
pub open spec fn blank_text(field: Field) -> Seq<char> {
    match field {
        Field::SourcePath => "No path to a spreadsheet file given"@,
        Field::Sheet => "No sheet name given"@,
        Field::Column => "No column given"@,
        Field::DestinationPath => "No path for the course list given"@,
    }
}

/// The start of the message for a failure at the given step.
pub open spec fn failure_prefix(step: Step) -> Seq<char> {
    match step {
        Step::Open => "Could not open spreadsheet file: "@,
        Step::Read => "Could not read course list: "@,
        Step::Write => "Could not write course list: "@,
    }
}

/// The message for a list that was written.
pub open spec fn success_text(participants: nat, dest_path: Seq<char>) -> Seq<char> {
    "Successfully wrote data of "@ + natural_text(participants) + " participants to "@ + dest_path
}

/// The title of the window.
pub open spec fn title_text(version: Seq<char>, authors: Seq<char>) -> Seq<char> {
    "SiR Course List Generator Version "@ + version + " by "@ + authors
}

/// The form after a message.
pub open spec fn form_after(form: FormView, message: Message) -> FormView {
    match message {
        Message::Nothing => form,
        Message::SrcPathInputChanged(text) => FormView { src_path: text@, ..form },
        Message::SrcSheetInputChanged(text) => FormView { src_sheet: text@, ..form },
        Message::SrcColumnInputChanged(text) => FormView { src_column: text@, ..form },
        Message::DestPathInputChanged(text) => FormView { dest_path: text@, ..form },
        Message::GeneratePressed => match first_blank(form) {
            Some(field) => FormView { error_text: blank_text(field), state: State::Error, ..form },
            None => form,
        },
        Message::BackPressed => FormView { state: State::Entry, ..form },
        Message::AuxNameInputChanged { id, value } => if id < form.aux_names.len() {
            FormView { aux_names: form.aux_names.update(id as int, value@), ..form }
        } else {
            form
        },
        Message::AuxColInputChanged { id, value } => if id < form.aux_columns.len() {
            FormView { aux_columns: form.aux_columns.update(id as int, value@), ..form }
        } else {
            form
        },
        Message::LoadPreferences(preferences) => {
            let loaded = FormView {
                src_path: preferences.src_path@,
                src_sheet: preferences.src_sheet@,
                src_column: preferences.src_column@,
                dest_path: preferences.dest_path@,
                ..form
            };
            match preferences.auxiliaries {
                Some(list) => FormView {
                    aux_names: resized(pairs(list@).map_values(|pair: (Seq<char>, Seq<char>)| pair.0)),
                    aux_columns: resized(
                        pairs(list@).map_values(|pair: (Seq<char>, Seq<char>)| pair.1),
                    ),
                    ..loaded
                },
                None => loaded,
            }
        },
        Message::StorePreferences(_) => form,
        Message::Generated { participants } => FormView {
            result_text: success_text(participants as nat, form.dest_path),
            state: State::Result,
            ..form
        },
        Message::Failed { step, detail } => FormView {
            error_text: failure_prefix(step) + detail@,
            state: State::Error,
            ..form
        },
    }
}

/// Whether `action` is what a message asks for: a list on `GeneratePressed`
/// where no needed field is empty, storing the form's texts once a list
/// was written, else nothing.
pub open spec fn is_action_after(action: Action, form: FormView, message: Message) -> bool {
    match message {
        Message::GeneratePressed => if first_blank(form) is Some {
            action is Nothing
        } else {
            &&& action matches Action::Generate(request)
            &&& request.src_path@ == form.src_path
            &&& request.src_sheet@ == form.src_sheet
            &&& request.src_column@ == form.src_column
            &&& request.dest_path@ == form.dest_path
            &&& request.options@ == options_of(form)
        },
        Message::Generated { participants } => {
            &&& action matches Action::StorePreferences(preferences)
            &&& preferences.src_path@ == form.src_path
            &&& preferences.src_sheet@ == form.src_sheet
            &&& preferences.src_column@ == form.src_column
            &&& preferences.dest_path@ == form.dest_path
            &&& preferences.auxiliaries matches Some(list)
            &&& pairs(list@) == zipped(form.aux_names, form.aux_columns)
        },
        _ => action is Nothing,
    }
}

/// As many texts as the form has additional columns: those of `list` as far
/// as they go, then empty ones.
fn resize_texts(list: Vec<String>) -> (sized: Vec<String>)
    ensures
        texts(sized@) == resized(texts(list@)),
{
    let mut sized: Vec<String> = Vec::new();
    let mut i: usize = 0;
    while i < AUXILIARIES
        invariant
            i <= AUXILIARIES,
            sized@.len() == i,
            forall|k: int| 0 <= k < i ==> (#[trigger] sized@[k])@ == resized(texts(list@))[k],
        decreases AUXILIARIES - i,
    {
        if i < list.len() {
            sized.push(list[i].clone());
        } else {
            sized.push(String::new());
        }
        i += 1;
    }
    assert(texts(sized@) =~= resized(texts(list@)));
    sized
}

impl Form {
    /// The form at the start: every text empty, and the preferences of the
    /// last run asked for.
    pub fn new() -> (start: (Form, Action))
        ensures
            start.0@ == (FormView {
                src_path: Seq::empty(),
                src_sheet: Seq::empty(),
                src_column: Seq::empty(),
                dest_path: Seq::empty(),
                aux_names: resized(Seq::empty()),
                aux_columns: resized(Seq::empty()),
                error_text: Seq::empty(),
                result_text: Seq::empty(),
                state: State::Entry,
            }),
            start.1 is LoadPreferences,
    {
        let form = Form {
            src_path_text: String::new(),
            src_sheet_text: String::new(),
            src_column_text: String::new(),
            dest_path_text: String::new(),
            aux_name_text: resize_texts(Vec::new()),
            aux_col_text: resize_texts(Vec::new()),
            error_text: String::new(),
            result_text: String::new(),
            state: State::Entry,
        };
        proof {
            assert(texts(Seq::<String>::empty()) =~= Seq::<Seq<char>>::empty());
        }
        (form, Action::LoadPreferences)
    }

    /// The heading and the column label of each additional column.
    pub fn auxiliary_pairs(&self) -> (list: Vec<(String, String)>)
        ensures
            pairs(list@) == zipped(self@.aux_names, self@.aux_columns),
    {
        let mut list: Vec<(String, String)> = Vec::new();
        let mut i: usize = 0;
        while i < self.aux_name_text.len() && i < self.aux_col_text.len()
            invariant
                i <= self.aux_name_text.len(),
                i <= self.aux_col_text.len(),
                list@.len() == i,
                forall|k: int|
                    0 <= k < i ==> (#[trigger] list@[k]).0@ == self.aux_name_text@[k]@ && list@[k].1@
                        == self.aux_col_text@[k]@,
            decreases self.aux_name_text.len() - i,
        {
            list.push((self.aux_name_text[i].clone(), self.aux_col_text[i].clone()));
            i += 1;
        }
        assert(pairs(list@) =~= zipped(self@.aux_names, self@.aux_columns));
        list
    }

    /// The options that the form asks for.
    pub fn options(&self) -> (options: CourseListOptions)
        ensures
            options@ == options_of(self@),
    {
        let all = self.auxiliary_pairs();
        let ghost wanted = zipped(self@.aux_names, self@.aux_columns);
        let mut kept: Vec<(String, String)> = Vec::new();
        let mut i: usize = 0;
        proof {
            assert(wanted.take(0) =~= Seq::empty());
            wanted.take(0).lemma_filter_len(filled());
            assert(pairs(kept@) =~= wanted.take(0).filter(filled()));
        }
        while i < all.len()
            invariant
                i <= all.len(),
                wanted == pairs(all@),
                pairs(kept@) == wanted.take(i as int).filter(filled()),
            decreases all.len() - i,
        {
            let ghost before = kept@;
            proof {
                assert(wanted.take(i + 1) =~= wanted.take(i as int).push(wanted[i as int]));
                wanted.take(i as int).lemma_filter_push(wanted[i as int], filled());
            }
            let blank = all[i].0.as_str().unicode_len() == 0 && all[i].1.as_str().unicode_len() == 0;
            if !blank {
                let pair = (all[i].0.clone(), all[i].1.clone());
                kept.push(pair);
                assert(pairs(kept@) =~= pairs(before).push(wanted[i as int]));
            }
            i += 1;
        }
        assert(wanted.take(i as int) =~= wanted);
        CourseListOptions { show_price: false, auxiliaries: kept }
    }

    /// The first of the four needed fields that is empty, if one is.
    pub fn blank_field(&self) -> (field: Option<Field>)
        ensures
            field == first_blank(self@),
    {
        if self.src_path_text.as_str().unicode_len() == 0 {
            Some(Field::SourcePath)
        } else if self.src_sheet_text.as_str().unicode_len() == 0 {
            Some(Field::Sheet)
        } else if self.src_column_text.as_str().unicode_len() == 0 {
            Some(Field::Column)
        } else if self.dest_path_text.as_str().unicode_len() == 0 {
            Some(Field::DestinationPath)
        } else {
            None
        }
    }

    /// Takes a message: changes the form as the message says, and hands
    /// back what is to be done outside. A list is asked for only where the
    /// workbook, the sheet, the grouping column and the destination are
    /// all given.
    pub fn update(&mut self, message: Message) -> (action: Action)
        ensures
            final(self)@ == form_after(old(self)@, message),
            is_action_after(action, old(self)@, message),
    {
        match message {
            Message::Nothing => Action::Nothing,
            Message::SrcPathInputChanged(text) => {
                self.src_path_text = text;
                Action::Nothing
            },
            Message::SrcSheetInputChanged(text) => {
                self.src_sheet_text = text;
                Action::Nothing
            },
            Message::SrcColumnInputChanged(text) => {
                self.src_column_text = text;
                Action::Nothing
            },
            Message::DestPathInputChanged(text) => {
                self.dest_path_text = text;
                Action::Nothing
            },
            Message::GeneratePressed => match self.blank_field() {
                Some(field) => {
                    self.error_text = match field {
                        Field::SourcePath => "No path to a spreadsheet file given".to_owned(),
                        Field::Sheet => "No sheet name given".to_owned(),
                        Field::Column => "No column given".to_owned(),
                        Field::DestinationPath => "No path for the course list given".to_owned(),
                    };
                    self.state = State::Error;
                    Action::Nothing
                },
                None => Action::Generate(
                    Request {
                        src_path: self.src_path_text.clone(),
                        src_sheet: self.src_sheet_text.clone(),
                        src_column: self.src_column_text.clone(),
                        dest_path: self.dest_path_text.clone(),
                        options: self.options(),
                    },
                ),
            },
            Message::BackPressed => {
                self.state = State::Entry;
                Action::Nothing
            },
            Message::AuxNameInputChanged { id, value } => {
                if id < self.aux_name_text.len() {
                    self.aux_name_text.set(id, value);
                    assert(texts(self.aux_name_text@) =~= texts(old(self).aux_name_text@).update(
                        id as int,
                        value@,
                    ));
                }
                Action::Nothing
            },
            Message::AuxColInputChanged { id, value } => {
                if id < self.aux_col_text.len() {
                    self.aux_col_text.set(id, value);
                    assert(texts(self.aux_col_text@) =~= texts(old(self).aux_col_text@).update(
                        id as int,
                        value@,
                    ));
                }
                Action::Nothing
            },
            Message::LoadPreferences(preferences) => {
                self.src_path_text = preferences.src_path;
                self.src_sheet_text = preferences.src_sheet;
                self.src_column_text = preferences.src_column;
                self.dest_path_text = preferences.dest_path;
                match preferences.auxiliaries {
                    Some(list) => {
                        let mut names: Vec<String> = Vec::new();
                        let mut columns: Vec<String> = Vec::new();
                        let mut i: usize = 0;
                        while i < list.len()
                            invariant
                                i <= list.len(),
                                names@.len() == i,
                                columns@.len() == i,
                                forall|k: int|
                                    0 <= k < i ==> (#[trigger] names@[k])@ == list@[k].0@,
                                forall|k: int|
                                    0 <= k < i ==> (#[trigger] columns@[k])@ == list@[k].1@,
                            decreases list.len() - i,
                        {
                            names.push(list[i].0.clone());
                            columns.push(list[i].1.clone());
                            i += 1;
                        }
                        proof {
                            assert(texts(names@) =~= pairs(list@).map_values(
                                |pair: (Seq<char>, Seq<char>)| pair.0,
                            ));
                            assert(texts(columns@) =~= pairs(list@).map_values(
                                |pair: (Seq<char>, Seq<char>)| pair.1,
                            ));
                        }
                        self.aux_name_text = resize_texts(names);
                        self.aux_col_text = resize_texts(columns);
                    },
                    None => {},
                }
                Action::Nothing
            },
            Message::StorePreferences(_) => Action::Nothing,
            Message::Generated { participants } => {
                let mut text = "Successfully wrote data of ".to_owned();
                text.append(write_natural(participants as u64).as_str());
                text.append(" participants to ");
                text.append(self.dest_path_text.as_str());
                self.result_text = text;
                self.state = State::Result;
                Action::StorePreferences(
                    Preferences {
                        src_path: self.src_path_text.clone(),
                        src_sheet: self.src_sheet_text.clone(),
                        src_column: self.src_column_text.clone(),
                        dest_path: self.dest_path_text.clone(),
                        auxiliaries: Some(self.auxiliary_pairs()),
                    },
                )
            },
            Message::Failed { step, detail } => {
                let mut text = match step {
                    Step::Open => "Could not open spreadsheet file: ".to_owned(),
                    Step::Read => "Could not read course list: ".to_owned(),
                    Step::Write => "Could not write course list: ".to_owned(),
                };
                text.append(detail.as_str());
                self.error_text = text;
                self.state = State::Error;
                Action::Nothing
            },
        }
    }
}

/// The title of the window, for the program's version and authors.
pub fn title(version: &str, authors: &str) -> (text: String)
    ensures
        text@ == title_text(version@, authors@),
{
    let mut text = "SiR Course List Generator Version ".to_owned();
    text.append(version);
    text.append(" by ");
    text.append(authors);
    text
}

} // verus!
