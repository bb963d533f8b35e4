//! The application chooser dialog: a list of applications with the request's
//! embedded choices below it.

use vstd::prelude::*;
use vstd::string::*;

use crate::file_chooser::{collect_choices, start_choices, ChoiceState};
use crate::prompter::Choice;

verus! {

/// An application that can be chosen.
pub struct AppChoice {
    pub id: String,
    pub name: String,
    pub icon: Option<String>,
}

/// A request to choose an application.
pub struct ChooseAppRequest {
    pub title: String,
    pub app_id: String,
    pub content_type: String,
    pub apps: Vec<AppChoice>,
    pub choices: Vec<Choice>,
}

/// The answer to such a request.
pub enum ChooseAppResponse {
    Selected { app: String, choices: Vec<(String, String)> },
    Cancelled,
}

/// The dialog.
pub struct ChooseAppDialog {
    pub request: ChooseAppRequest,
    /// The highlighted row.
    pub selected: i32,
    pub choices: Vec<ChoiceState>,
    pub done: Option<ChooseAppResponse>,
}

/// The answer of the dialog.
pub enum AppAnswer {
    Pending,
    Cancelled,
    Selected { app: Seq<char>, choices: Seq<(Seq<char>, Seq<char>)> },
}

/// What an answer says.
pub open spec fn app_answer(done: Option<ChooseAppResponse>) -> AppAnswer {
    match done {
        None => AppAnswer::Pending,
        Some(ChooseAppResponse::Cancelled) => AppAnswer::Cancelled,
        Some(ChooseAppResponse::Selected { app, choices }) => AppAnswer::Selected {
            app: app@,
            choices: choices@.map_values(|c: (String, String)| (c.0@, c.1@)),
        },
    }
}

/// The row that an index stands for: a negative one stands for the first.
pub open spec fn row_of(selected: i32) -> int {
    if selected < 0 {
        0
    } else {
        selected as int
    }
}

/// What the hint of the dialog says.
pub fn hint(request: &ChooseAppRequest) -> (text: String)
    ensures
        text@ == "Choose an application to open content of type "@ + request.content_type@,
{
    let mut text = "Choose an application to open content of type ".to_owned();
    text.append(request.content_type.as_str());
    text
}

impl ChooseAppDialog {
    /// Every choice has a value.
    pub open spec fn well_formed(self) -> bool {
        self.choices@.len() == self.request.choices@.len()
    }

    /// Opens the dialog with the first row highlighted.
    pub fn new(request: ChooseAppRequest) -> (dialog: Self)
        ensures
            dialog.well_formed(),
            dialog.request == request,
            dialog.selected == 0,
            dialog.choices@ == request.choices@.map_values(
                |c: Choice| crate::file_chooser::initial_choice(c),
            ),
            dialog.done is None,
    {
        let choices = start_choices(&request.choices);
        ChooseAppDialog { request, selected: 0, choices, done: None }
    }

    /// The list moved its cursor, or a row was clicked, in this order.
    pub fn row_moved(&mut self, cursor: Option<i32>, clicked: Option<i32>)
        ensures
            *final(self) == (ChooseAppDialog {
                selected: match clicked {
                    Some(row) => row,
                    None => match cursor {
                        Some(row) => if row >= 0 {
                            row
                        } else {
                            old(self).selected
                        },
                        None => old(self).selected,
                    },
                },
                ..*old(self)
            }),
    {
        if let Some(row) = cursor {
            if row >= 0 {
                self.selected = row;
            }
        }
        if let Some(row) = clicked {
            self.selected = row;
        }
    }

    /// The value of one embedded choice was changed.
    pub fn choice_changed(&mut self, index: usize, value: ChoiceState)
        requires
            old(self).well_formed(),
            index < old(self).choices@.len(),
        ensures
            final(self).well_formed(),
            final(self).choices@ == old(self).choices@.update(index as int, value),
            final(self).request == old(self).request,
            final(self).selected == old(self).selected,
            final(self).done == old(self).done,
    {
        self.choices.set(index, value);
    }

    /// Answers with the highlighted row and the value of every choice. An
    /// index beyond the list answers nothing.
    pub fn accept(&mut self)
        requires
            old(self).well_formed(),
        ensures
            final(self).well_formed(),
            final(self).request == old(self).request,
            final(self).selected == old(self).selected,
            final(self).choices == old(self).choices,
            ({
                let row = row_of(old(self).selected);
                if row < old(self).request.apps@.len() {
                    app_answer(final(self).done) == (AppAnswer::Selected {
                        app: old(self).request.apps@[row].id@,
                        choices: crate::file_chooser::collected(
                            old(self).request.choices@,
                            old(self).choices@,
                        ),
                    })
                } else {
                    final(self).done == old(self).done
                }
            }),
    {
        let row: usize = if self.selected < 0 {
            0
        } else {
            self.selected as usize
        };
        if row < self.request.apps.len() {
            let app = self.request.apps[row].id.clone();
            let choices = collect_choices(&self.request.choices, &self.choices);
            self.done = Some(ChooseAppResponse::Selected { app, choices });
        }
    }

    /// Cancels the dialog.
    pub fn cancel(&mut self)
        ensures
            app_answer(final(self).done) is Cancelled,
            final(self).request == old(self).request,
            final(self).selected == old(self).selected,
            final(self).choices == old(self).choices,
    {
        self.done = Some(ChooseAppResponse::Cancelled);
    }

    /// The answer of a closed dialog: without one it is cancelled.
    pub fn result(self) -> (response: ChooseAppResponse)
        ensures
            match self.done {
                Some(done) => response == done,
                None => response is Cancelled,
            },
    {
        match self.done {
            Some(done) => done,
            None => ChooseAppResponse::Cancelled,
        }
    }
}

} // verus!
