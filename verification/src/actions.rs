//! What a handler wants to be done: messages, orders to the task scheduler, steps of the dialogue.
use crate::data_types::{DialogueState, DisplayPreferences, JobHandlerTask, MensaKeyboardAction};
use vstd::prelude::*;

verus! {

/// The keyboard that comes with a message.
#[derive(Debug, Copy, Clone, PartialEq, Eq, Structural)]
pub enum Markup {
    /// None.
    Plain,
    /// One button for every canteen.
    Mensen(MensaKeyboardAction),
    /// The commands.
    Commands,
}

/// One thing to do in a chat. A list of them is done from the first to the last.
#[derive(Debug, Clone, PartialEq)]
pub enum Action {
    /// Acknowledge that a button was pressed.
    AnswerCallback,
    /// Send a text, as MarkdownV2 or as it is.
    Send { text: String, markdown: bool, markup: Markup },
    /// Build the message that shows a plan, and send it as MarkdownV2.
    SendMeals { days_forward: i64, mensa_id: u32, markup: Markup },
    /// Send the picture that explains how subscribing works.
    SendBloatImage,
    /// Exchange the text of the message whose button was pressed.
    EditPressed { text: String, markdown: bool },
    /// Give an order to the task scheduler.
    Queue(JobHandlerTask),
    /// Write to the database what an order sets.
    UpdateDb(JobHandlerTask),
    /// Write to the database whether allergens are shown.
    StoreAllergens(bool),
    /// Remember what the chat wants to see.
    StorePreferences(DisplayPreferences),
    /// Go on with the dialogue in this state.
    UpdateDialogue(DialogueState),
    /// End the dialogue.
    ExitDialogue,
}

/// An action, with its text as a sequence of characters.
pub ghost enum ActionView {
    AnswerCallback,
    Send { text: Seq<char>, markdown: bool, markup: Markup },
    SendMeals { days_forward: i64, mensa_id: u32, markup: Markup },
    SendBloatImage,
    EditPressed { text: Seq<char>, markdown: bool },
    Queue(JobHandlerTask),
    UpdateDb(JobHandlerTask),
    StoreAllergens(bool),
    StorePreferences(DisplayPreferences),
    UpdateDialogue(DialogueState),
    ExitDialogue,
}

impl View for Action {
    type V = ActionView;

    open spec fn view(&self) -> ActionView {
        match *self {
            Action::AnswerCallback => ActionView::AnswerCallback,
            Action::Send { text, markdown, markup } => ActionView::Send {
                text: text@,
                markdown,
                markup,
            },
            Action::SendMeals { days_forward, mensa_id, markup } => ActionView::SendMeals {
                days_forward,
                mensa_id,
                markup,
            },
            Action::SendBloatImage => ActionView::SendBloatImage,
            Action::EditPressed { text, markdown } => ActionView::EditPressed {
                text: text@,
                markdown,
            },
            Action::Queue(task) => ActionView::Queue(task),
            Action::UpdateDb(task) => ActionView::UpdateDb(task),
            Action::StoreAllergens(shown) => ActionView::StoreAllergens(shown),
            Action::StorePreferences(preferences) => ActionView::StorePreferences(preferences),
            Action::UpdateDialogue(state) => ActionView::UpdateDialogue(state),
            Action::ExitDialogue => ActionView::ExitDialogue,
        }
    }
}

/// A list of actions, with their texts as sequences of characters.
pub open spec fn views(actions: Seq<Action>) -> Seq<ActionView> {
    actions.map_values(|a: Action| a@)
}

/// The action that sends a text as it is.
pub open spec fn plain(text: Seq<char>) -> ActionView {
    ActionView::Send { text, markdown: false, markup: Markup::Plain }
}

/// The action that sends a text as it is.
pub fn send_plain(text: &str) -> (r: Action)
    ensures
        r@ == plain(text@),
{
    Action::Send { text: crate::text::owned(text), markdown: false, markup: Markup::Plain }
}

/// Whether a list of actions gives no order to the task scheduler and writes nothing down.
pub open spec fn changes_nothing(actions: Seq<ActionView>) -> bool {
    forall|i: int|
        0 <= i < actions.len() ==> {
            let a = #[trigger] actions[i];
            !(a is Queue) && !(a is UpdateDb) && !(a is StoreAllergens) && !(a is StorePreferences)
        }
}

} // verus!
