//! The values that the parts of the bot with day buttons hand to each other.
use crate::text::owned;
use uuid::Uuid;
use vstd::prelude::*;

verus! {

/// What a user can ask for by a slash command.
#[derive(Debug, Copy, Clone, PartialEq, Eq, Structural)]
pub enum Command {
    Heute,
    Morgen,
    Uebermorgen,
    Subscribe,
    Unsubscribe,
    Uhrzeit,
    Mensa,
    Start,
}

/// What the task scheduler is asked to do.
#[derive(Debug, Copy, Clone, PartialEq, Eq, Structural)]
pub enum JobType {
    Register,
    Unregister,
    QueryRegistration,
    UpdateRegistration,
    BroadcastUpdate,
    InsertCallbackMessageId,
}

/// One order to the task scheduler. What a job type does not use is `None`.
#[derive(Debug, Copy, Clone, PartialEq, Eq, Structural)]
pub struct JobHandlerTask {
    pub job_type: JobType,
    pub chat_id: Option<i64>,
    pub mensa_id: Option<u8>,
    pub hour: Option<u32>,
    pub minute: Option<u32>,
    pub callback_id: Option<i32>,
}

/// What is known of a chat: its canteen, the job and the time of its daily message if it has one,
/// and the message that has buttons.
#[derive(Debug, Copy, Clone, PartialEq)]
pub struct RegistrationEntry {
    pub job_uuid: Option<Uuid>,
    pub mensa_id: u8,
    pub hour: Option<u32>,
    pub minute: Option<u32>,
    pub callback_id: Option<i32>,
}

/// Why no time of day came out of a message.
#[derive(Debug, Copy, Clone, PartialEq, Eq, Structural)]
pub enum TimeParseError {
    NoTimePassed,
    InvalidTimePassed,
}

impl TimeParseError {
    /// The error in words.
    pub fn text(&self) -> (r: String)
        ensures
            r@ == match *self {
                TimeParseError::NoTimePassed => "Keine Zeit übergeben"@,
                TimeParseError::InvalidTimePassed => "Zeit konnte nicht gelesen werden"@,
            },
    {
        match self {
            TimeParseError::NoTimePassed => owned("Keine Zeit übergeben"),
            TimeParseError::InvalidTimePassed => owned("Zeit konnte nicht gelesen werden"),
        }
    }
}

/// The plan of a day, as it is kept between two requests.
#[derive(Debug, Clone, PartialEq)]
pub struct MealsForDay {
    pub date: String,
    pub meal_groups: Vec<MealGroup>,
}

/// The meals of one kind on one day.
#[derive(Debug, Clone, PartialEq)]
pub struct MealGroup {
    pub meal_type: String,
    pub sub_meals: Vec<SingleMeal>,
}

/// One dish.
#[derive(Debug, Clone, PartialEq)]
pub struct SingleMeal {
    pub name: String,
    pub additional_ingredients: Vec<String>,
    pub price: String,
}

} // verus!
