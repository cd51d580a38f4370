//! Activity events and their classifications.

use vstd::prelude::*;
use crate::text::{same_text, opt_text};

verus! {

/// Where an activity event comes from.
#[derive(Debug, Clone, Copy, PartialEq, Eq, Structural)]
pub enum EventType {
    File,
    Terminal,
    Browser,
    Meeting,
    Custom,
}

impl EventType {
    /// The label under which the type is stored and exchanged.
    pub open spec fn label(self) -> Seq<char> {
        match self {
            EventType::File => "file"@,
            EventType::Terminal => "terminal"@,
            EventType::Browser => "browser"@,
            EventType::Meeting => "meeting"@,
            EventType::Custom => "custom"@,
        }
    }

    /// The type a label stands for; every unknown label is `Custom`.
    pub open spec fn of_label(s: Seq<char>) -> EventType {
        if s == "file"@ {
            EventType::File
        } else if s == "terminal"@ {
            EventType::Terminal
        } else if s == "browser"@ {
            EventType::Browser
        } else if s == "meeting"@ {
            EventType::Meeting
        } else {
            EventType::Custom
        }
    }

    pub fn as_str(&self) -> (s: &'static str)
        ensures
            s@ == self.label(),
    {
        match self {
            EventType::File => "file",
            EventType::Terminal => "terminal",
            EventType::Browser => "browser",
            EventType::Meeting => "meeting",
            EventType::Custom => "custom",
        }
    }

    pub fn from_str_lossy(s: &str) -> (t: EventType)
        ensures
            t == EventType::of_label(s@),
    {
        if same_text(s, "file") {
            EventType::File
        } else if same_text(s, "terminal") {
            EventType::Terminal
        } else if same_text(s, "browser") {
            EventType::Browser
        } else if same_text(s, "meeting") {
            EventType::Meeting
        } else {
            EventType::Custom
        }
    }

    /// Reading back a label gives the type it was written for.
    pub proof fn lemma_label_round_trip(self)
        ensures
            EventType::of_label(self.label()) == self,
    {
        reveal_strlit("file");
        reveal_strlit("terminal");
        reveal_strlit("browser");
        reveal_strlit("meeting");
        reveal_strlit("custom");
        assert("file"@[0] == 'f' && "terminal"@[0] == 't' && "browser"@[0] == 'b');
        assert("meeting"@[0] == 'm' && "custom"@[0] == 'c');
    }
}

/// What the user was doing when an event was recorded.
#[derive(Debug, Clone, Copy, PartialEq, Eq, Structural)]
pub enum ActivityType {
    Coding,
    Browsing,
    Debugging,
    Building,
    Communicating,
    Designing,
    Other,
}

impl ActivityType {
    /// The label under which the activity is stored and exchanged.
    pub open spec fn label(self) -> Seq<char> {
        match self {
            ActivityType::Coding => "coding"@,
            ActivityType::Browsing => "browsing"@,
            ActivityType::Debugging => "debugging"@,
            ActivityType::Building => "building"@,
            ActivityType::Communicating => "communicating"@,
            ActivityType::Designing => "designing"@,
            ActivityType::Other => "other"@,
        }
    }

    /// The activity a label stands for; every unknown label is `Other`.
    pub open spec fn of_label(s: Seq<char>) -> ActivityType {
        if s == "coding"@ {
            ActivityType::Coding
        } else if s == "browsing"@ {
            ActivityType::Browsing
        } else if s == "debugging"@ {
            ActivityType::Debugging
        } else if s == "building"@ {
            ActivityType::Building
        } else if s == "communicating"@ {
            ActivityType::Communicating
        } else if s == "designing"@ {
            ActivityType::Designing
        } else {
            ActivityType::Other
        }
    }

    pub fn as_str(&self) -> (s: &'static str)
        ensures
            s@ == self.label(),
    {
        match self {
            ActivityType::Coding => "coding",
            ActivityType::Browsing => "browsing",
            ActivityType::Debugging => "debugging",
            ActivityType::Building => "building",
            ActivityType::Communicating => "communicating",
            ActivityType::Designing => "designing",
            ActivityType::Other => "other",
        }
    }

    pub fn from_str_lossy(s: &str) -> (a: ActivityType)
        ensures
            a == ActivityType::of_label(s@),
    {
        if same_text(s, "coding") {
            ActivityType::Coding
        } else if same_text(s, "browsing") {
            ActivityType::Browsing
        } else if same_text(s, "debugging") {
            ActivityType::Debugging
        } else if same_text(s, "building") {
            ActivityType::Building
        } else if same_text(s, "communicating") {
            ActivityType::Communicating
        } else if same_text(s, "designing") {
            ActivityType::Designing
        } else {
            ActivityType::Other
        }
    }

    /// Reading back a label gives the activity it was written for.
    pub proof fn lemma_label_round_trip(self)
        ensures
            ActivityType::of_label(self.label()) == self,
    {
        reveal_strlit("coding");
        reveal_strlit("browsing");
        reveal_strlit("debugging");
        reveal_strlit("building");
        reveal_strlit("communicating");
        reveal_strlit("designing");
        reveal_strlit("other");
        assert("coding"@.len() == 6 && "communicating"@.len() == 13 && "other"@[0] == 'o');
        assert("browsing"@[1] == 'r' && "building"@[1] == 'u' && "browsing"@[0] == 'b');
        assert("debugging"@[2] == 'b' && "designing"@[2] == 's' && "debugging"@[0] == 'd');
    }
}

/// One recorded moment of activity.
///
/// Instants are milliseconds since the Unix epoch, UTC. `user_id` is the
/// 128-bit value of the user's identifier. `metadata` is JSON text.
#[derive(Debug, Clone)]
pub struct Event {
    pub id: Option<i64>,
    pub user_id: u128,
    pub timestamp: i64,
    pub event_type: EventType,
    pub entity: String,
    pub project: Option<String>,
    pub language: Option<String>,
    pub branch: Option<String>,
    pub activity: Option<ActivityType>,
    pub machine: Option<String>,
    pub metadata: Option<String>,
    pub created_at: Option<i64>,
}

/// The mathematical content of an [`Event`].
pub struct EventView {
    pub id: Option<i64>,
    pub user_id: u128,
    pub timestamp: i64,
    pub event_type: EventType,
    pub entity: Seq<char>,
    pub project: Option<Seq<char>>,
    pub language: Option<Seq<char>>,
    pub branch: Option<Seq<char>>,
    pub activity: Option<ActivityType>,
    pub machine: Option<Seq<char>>,
    pub metadata: Option<Seq<char>>,
    pub created_at: Option<i64>,
}

impl View for Event {
    type V = EventView;

    open spec fn view(&self) -> EventView {
        EventView {
            id: self.id,
            user_id: self.user_id,
            timestamp: self.timestamp,
            event_type: self.event_type,
            entity: self.entity@,
            project: opt_text(self.project),
            language: opt_text(self.language),
            branch: opt_text(self.branch),
            activity: self.activity,
            machine: opt_text(self.machine),
            metadata: opt_text(self.metadata),
            created_at: self.created_at,
        }
    }
}

} // verus!
