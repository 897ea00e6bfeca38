//! The values that the parts of the bot hand to each other.
pub mod mm_data_types;
pub mod stuwe_data_types;

use crate::data_types::stuwe_data_types::CanteenMealDiff;
use crate::text::{dec, decimal, owned};
use uuid::Uuid;
use vstd::prelude::*;
use vstd::std_specs::convert::FromSpecImpl;
use vstd::string::StringExecFns;

verus! {

/// The identifier of a scheduled job. Nothing is known of it but its identity.
#[verifier::external_type_specification]
#[verifier::external_body]
pub struct ExUuid(Uuid);

/// The service that the plans come from.
#[derive(Debug, Copy, Clone, PartialEq, Eq, Structural)]
pub enum Backend {
    MensiMates,
    StuWe,
}

/// What a user can ask for by a slash command.
#[derive(Debug, Copy, Clone, PartialEq, Eq, Structural)]
pub enum Command {
    Heute,
    Morgen,
    Andere,
    Uebermorgen,
    Subscribe,
    Unsubscribe,
    Uhrzeit,
    Mensa,
    Start,
}

/// Whether the next message of a chat is read as a time of day.
#[derive(Debug, Copy, Clone, PartialEq, Eq, Structural)]
pub enum DialogueState {
    Default,
    AwaitTimeReply,
}

impl Default for DialogueState {
    fn default() -> (r: Self)
        ensures
            r == DialogueState::Default,
    {
        DialogueState::Default
    }
}

/// What happens with the canteen that is picked from the keyboard.
#[derive(Debug, Copy, Clone, PartialEq, Eq, Structural)]
pub enum MensaKeyboardAction {
    Register,
    Update,
    DisplayOnce,
}

/// What the task scheduler is asked to do.
#[derive(Debug, Copy, Clone, PartialEq, Eq, Structural)]
pub enum JobType {
    Register,
    DeleteRegistration,
    QueryRegistration,
    UpdateRegistration,
    BroadcastUpdate,
}

/// One order to the task scheduler. What a job type does not use is `None`.
#[derive(Debug, Clone, PartialEq)]
pub struct JobHandlerTask {
    pub job_type: JobType,
    pub chat_id: Option<i64>,
    pub mensa_id: Option<u32>,
    pub hour: Option<u32>,
    pub minute: Option<u32>,
    pub meals_diff: Option<CanteenMealDiff>,
}

/// Enter a chat, with the time of its daily message.
#[derive(Debug, Copy, Clone, PartialEq)]
pub struct RegisterTask {
    pub chat_id: i64,
    pub mensa_id: u32,
    pub hour: u32,
    pub minute: u32,
}

impl RegisterTask {
    /// The order as the task scheduler takes it.
    pub open spec fn order(self) -> JobHandlerTask {
        JobHandlerTask {
            job_type: JobType::Register,
            chat_id: Some(self.chat_id),
            mensa_id: Some(self.mensa_id),
            hour: Some(self.hour),
            minute: Some(self.minute),
            meals_diff: None,
        }
    }
}

impl From<RegisterTask> for JobHandlerTask {
    fn from(job: RegisterTask) -> (r: Self) {
        JobHandlerTask {
            job_type: JobType::Register,
            chat_id: Some(job.chat_id),
            mensa_id: Some(job.mensa_id),
            hour: Some(job.hour),
            minute: Some(job.minute),
            meals_diff: None,
        }
    }
}

impl FromSpecImpl<RegisterTask> for JobHandlerTask {
    open spec fn obeys_from_spec() -> bool {
        true
    }

    open spec fn from_spec(job: RegisterTask) -> Self {
        job.order()
    }
}

/// Stop the daily message of a chat.
#[derive(Debug, Copy, Clone, PartialEq)]
pub struct UnregisterTask {
    pub chat_id: i64,
}

impl UnregisterTask {
    /// The order as the task scheduler takes it.
    pub open spec fn order(self) -> JobHandlerTask {
        JobHandlerTask {
            job_type: JobType::DeleteRegistration,
            chat_id: Some(self.chat_id),
            mensa_id: None,
            hour: None,
            minute: None,
            meals_diff: None,
        }
    }
}

impl From<UnregisterTask> for JobHandlerTask {
    fn from(job: UnregisterTask) -> (r: Self) {
        JobHandlerTask {
            job_type: JobType::DeleteRegistration,
            chat_id: Some(job.chat_id),
            mensa_id: None,
            hour: None,
            minute: None,
            meals_diff: None,
        }
    }
}

impl FromSpecImpl<UnregisterTask> for JobHandlerTask {
    open spec fn obeys_from_spec() -> bool {
        true
    }

    open spec fn from_spec(job: UnregisterTask) -> Self {
        job.order()
    }
}

/// Report what is registered for a chat.
#[derive(Debug, Copy, Clone, PartialEq)]
pub struct QueryRegistrationTask {
    pub chat_id: i64,
}

impl QueryRegistrationTask {
    /// The order as the task scheduler takes it.
    pub open spec fn order(self) -> JobHandlerTask {
        JobHandlerTask {
            job_type: JobType::QueryRegistration,
            chat_id: Some(self.chat_id),
            mensa_id: None,
            hour: None,
            minute: None,
            meals_diff: None,
        }
    }
}

impl From<QueryRegistrationTask> for JobHandlerTask {
    fn from(job: QueryRegistrationTask) -> (r: Self) {
        JobHandlerTask {
            job_type: JobType::QueryRegistration,
            chat_id: Some(job.chat_id),
            mensa_id: None,
            hour: None,
            minute: None,
            meals_diff: None,
        }
    }
}

impl FromSpecImpl<QueryRegistrationTask> for JobHandlerTask {
    open spec fn obeys_from_spec() -> bool {
        true
    }

    open spec fn from_spec(job: QueryRegistrationTask) -> Self {
        job.order()
    }
}

/// Change what is registered for a chat. What is `None` stays as it is.
#[derive(Debug, Copy, Clone, PartialEq)]
pub struct UpdateRegistrationTask {
    pub chat_id: i64,
    pub mensa_id: Option<u32>,
    pub hour: Option<u32>,
    pub minute: Option<u32>,
}

impl UpdateRegistrationTask {
    /// The order as the task scheduler takes it.
    pub open spec fn order(self) -> JobHandlerTask {
        JobHandlerTask {
            job_type: JobType::UpdateRegistration,
            chat_id: Some(self.chat_id),
            mensa_id: self.mensa_id,
            hour: self.hour,
            minute: self.minute,
            meals_diff: None,
        }
    }
}

impl From<UpdateRegistrationTask> for JobHandlerTask {
    fn from(job: UpdateRegistrationTask) -> (r: Self) {
        JobHandlerTask {
            job_type: JobType::UpdateRegistration,
            chat_id: Some(job.chat_id),
            mensa_id: job.mensa_id,
            hour: job.hour,
            minute: job.minute,
            meals_diff: None,
        }
    }
}

impl FromSpecImpl<UpdateRegistrationTask> for JobHandlerTask {
    open spec fn obeys_from_spec() -> bool {
        true
    }

    open spec fn from_spec(job: UpdateRegistrationTask) -> Self {
        job.order()
    }
}

/// Tell the subscribers of a canteen that today's plan has changed.
#[derive(Debug, Clone, PartialEq)]
pub struct BroadcastUpdateTask {
    pub meals_diff: CanteenMealDiff,
}

impl BroadcastUpdateTask {
    /// The order as the task scheduler takes it.
    pub open spec fn order(self) -> JobHandlerTask {
        JobHandlerTask {
            job_type: JobType::BroadcastUpdate,
            chat_id: None,
            mensa_id: None,
            hour: None,
            minute: None,
            meals_diff: Some(self.meals_diff),
        }
    }
}

impl From<BroadcastUpdateTask> for JobHandlerTask {
    fn from(job: BroadcastUpdateTask) -> (r: Self) {
        JobHandlerTask {
            job_type: JobType::BroadcastUpdate,
            chat_id: None,
            mensa_id: None,
            hour: None,
            minute: None,
            meals_diff: Some(job.meals_diff),
        }
    }
}

impl FromSpecImpl<BroadcastUpdateTask> for JobHandlerTask {
    open spec fn obeys_from_spec() -> bool {
        true
    }

    open spec fn from_spec(job: BroadcastUpdateTask) -> Self {
        job.order()
    }
}

/// What is known of a chat: its canteen, and for a chat with a daily message the job that sends it
/// and the time of day at which it does.
#[derive(Debug, Copy, Clone, PartialEq)]
pub struct RegistrationEntry {
    pub job_uuid: Option<Uuid>,
    pub mensa_id: u32,
    pub hour: Option<u32>,
    pub minute: Option<u32>,
}

/// What a chat wants to see in its messages.
#[derive(Debug, Copy, Clone, PartialEq, Eq, Structural)]
pub struct DisplayPreferences {
    pub allergens: bool,
    pub senddiff: bool,
}

/// Why no time of day came out of a message.
#[derive(Debug, Copy, Clone, PartialEq, Eq, Structural)]
pub enum TimeParseError {
    InvalidTimePassed,
    OllamaUnavailable,
    OllamaUnconfigured,
    NoTimeArgPassed,
}

impl TimeParseError {
    /// The error in words.
    pub fn text(&self) -> (r: String)
        ensures
            r@ == match *self {
                TimeParseError::InvalidTimePassed => "Zeit konnte nicht gelesen werden"@,
                TimeParseError::OllamaUnavailable => "Ollama API ist nicht erreichbar"@,
                TimeParseError::OllamaUnconfigured => "Ollama API ist nicht konfiguriert"@,
                TimeParseError::NoTimeArgPassed => "Kein optionaler Zeitparam. bei Dialogstart"@,
            },
    {
        match self {
            TimeParseError::InvalidTimePassed => owned("Zeit konnte nicht gelesen werden"),
            TimeParseError::OllamaUnavailable => owned("Ollama API ist nicht erreichbar"),
            TimeParseError::OllamaUnconfigured => owned("Ollama API ist nicht konfiguriert"),
            TimeParseError::NoTimeArgPassed => owned("Kein optionaler Zeitparam. bei Dialogstart"),
        }
    }
}

/// A time of day, and the message that was edited to announce it, if one was.
#[derive(Debug, Copy, Clone, PartialEq, Eq, Structural)]
pub struct ParsedTimeAndLastMsgFromDialleougueue {
    pub hour: u32,
    pub minute: u32,
    pub msgid: Option<i32>,
}

/// The CampusDual account whose results are watched, and the chat that hears of them.
#[derive(Debug, Clone, PartialEq)]
pub struct CampusDualData {
    pub username: String,
    pub password: String,
    pub chat_id: i64,
}

/// One line of the table of results.
#[derive(Debug, Clone, PartialEq)]
pub struct CampusDualGrade {
    pub name: String,
    pub grade: String,
    pub subgrades: usize,
}

/// One line of the table of exams that one can sign up for.
#[derive(Debug, Clone, PartialEq)]
pub struct CampusDualSignupOption {
    pub name: String,
    pub verfahren: String,
    pub status: String,
}

/// Why CampusDual gave no results.
#[derive(Debug, Copy, Clone, PartialEq, Eq, Structural)]
pub enum CampusDualError {
    CdInitFailed(u16),
    CdZbaFailed(u16),
    CdBadCredentials,
}

impl CampusDualError {
    /// The error in words.
    pub fn text(&self) -> (r: String)
        ensures
            r@ == match *self {
                CampusDualError::CdInitFailed(status) => "CampusDual init failed: "@ + dec(
                    status as nat,
                ),
                CampusDualError::CdZbaFailed(status) => "CampusDual zba_init failed: "@ + dec(
                    status as nat,
                ),
                CampusDualError::CdBadCredentials => "CampusDual: bad credentials"@,
            },
    {
        match self {
            CampusDualError::CdInitFailed(status) => {
                let mut r = owned("CampusDual init failed: ");
                r.append(decimal(*status as u64).as_str());
                r
            },
            CampusDualError::CdZbaFailed(status) => {
                let mut r = owned("CampusDual zba_init failed: ");
                r.append(decimal(*status as u64).as_str());
                r
            },
            CampusDualError::CdBadCredentials => owned("CampusDual: bad credentials"),
        }
    }
}

} // verus!
