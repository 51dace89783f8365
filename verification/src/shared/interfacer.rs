//! What passes between the library and the operator: questions, the typed
//! answers to them, and messages.

use vstd::prelude::*;
use vstd::std_specs::convert::TryFromSpecImpl;
use super::text::{lowercase, prefix_split, same_text, to_chars, to_lowercase};

verus! {

/// A kind of answer that the operator can be asked for.
pub trait InterfacerReturnType: TryFrom<String> {
    /// The answers that are accepted, where they can be listed.
    fn valid_answers() -> Option<&'static [&'static str]>;
}

/// The operator, as the library sees them.
pub trait UserInterface {
    /// Shows the message to the operator and returns their answer, without
    /// the end of the line, once it is one of the kind asked for.
    fn get_user_answer<T: InterfacerReturnType>(&self, message: &str) -> T where
        <T as TryFrom<String>>::Error: std::fmt::Display,
    ;

    /// Shows the operator a message that they cannot answer.
    fn send_message(&self, message: &str);
}

/// Any text.
pub struct AnyString {
    pub string: String,
}

impl InterfacerReturnType for AnyString {
    fn valid_answers() -> (r: Option<&'static [&'static str]>)
        ensures
            r is None,
    {
        None
    }
}

impl From<String> for AnyString {
    fn from(string: String) -> (r: AnyString) {
        AnyString { string }
    }
}

impl vstd::std_specs::convert::FromSpecImpl<String> for AnyString {
    open spec fn obeys_from_spec() -> bool {
        true
    }

    open spec fn from_spec(string: String) -> AnyString {
        AnyString { string }
    }
}

/// A path that ends in `/`.
pub struct SlashEnding {
    pub path: String,
}

impl InterfacerReturnType for SlashEnding {
    fn valid_answers() -> (r: Option<&'static [&'static str]>)
        ensures
            r is None,
    {
        None
    }
}

impl TryFrom<String> for SlashEnding {
    type Error = &'static str;

    fn try_from(path: String) -> (r: Result<SlashEnding, &'static str>) {
        let chars = to_chars(path.as_str());
        if chars.len() > 0 && chars[chars.len() - 1] == '/' {
            Ok(SlashEnding { path })
        } else {
            Err("The path must end with a forward slash \"/\"")
        }
    }
}

impl TryFromSpecImpl<String> for SlashEnding {
    open spec fn obeys_try_from_spec() -> bool {
        true
    }

    open spec fn try_from_spec(path: String) -> Result<SlashEnding, &'static str> {
        if path@.len() > 0 && path@.last() == '/' {
            Ok(SlashEnding { path })
        } else {
            Err("The path must end with a forward slash \"/\"")
        }
    }
}


/// Yes or no.
#[derive(Debug, Copy, Clone, Eq, PartialEq, Structural)]
pub enum YesNo {
    Yes,
    No,
}

/// What a text means as a yes or a no, whatever its case.
pub open spec fn yes_no_of(answer: Seq<char>) -> Option<YesNo> {
    if lowercase(answer) == "yes"@ {
        Some(YesNo::Yes)
    } else if lowercase(answer) == "no"@ {
        Some(YesNo::No)
    } else {
        None
    }
}

impl InterfacerReturnType for YesNo {
    fn valid_answers() -> (r: Option<&'static [&'static str]>)
        ensures
            r matches Some(answers) && answers@.len() == 2 && answers@[0]@ == "yes"@
                && answers@[1]@ == "no"@,
    {
        Some(&["yes", "no"])
    }
}

impl TryFrom<String> for YesNo {
    type Error = &'static str;

    fn try_from(string: String) -> (r: Result<YesNo, &'static str>) {
        let lower = to_lowercase(string.as_str());
        if same_text(lower.as_str(), "yes") {
            Ok(YesNo::Yes)
        } else if same_text(lower.as_str(), "no") {
            Ok(YesNo::No)
        } else {
            Err("Only Yes or No are valid answers")
        }
    }
}

impl TryFromSpecImpl<String> for YesNo {
    open spec fn obeys_try_from_spec() -> bool {
        true
    }

    open spec fn try_from_spec(string: String) -> Result<YesNo, &'static str> {
        match yes_no_of(string@) {
            Some(answer) => Ok(answer),
            None => Err("Only Yes or No are valid answers"),
        }
    }
}

/// Yes or no, for this question alone or for every question that follows.
#[derive(Debug, Copy, Clone, Eq, PartialEq, Structural)]
pub enum YesNoAuto {
    Once(YesNo),
    Continued(YesNo),
}

/// What a text means as an answer that may hold for what follows: a yes or
/// a no, or one behind `cont`, whatever the case.
pub open spec fn yes_no_auto_of(answer: Seq<char>) -> Option<YesNoAuto> {
    match yes_no_of(answer) {
        Some(once) => Some(YesNoAuto::Once(once)),
        None => if "cont"@.is_prefix_of(lowercase(answer)) {
            match yes_no_of(lowercase(answer).skip("cont"@.len() as int)) {
                Some(continued) => Some(YesNoAuto::Continued(continued)),
                None => None,
            }
        } else {
            None
        },
    }
}

impl InterfacerReturnType for YesNoAuto {
    fn valid_answers() -> (r: Option<&'static [&'static str]>)
        ensures
            r matches Some(answers) && answers@.len() == 4 && answers@[0]@ == "yes"@
                && answers@[1]@ == "no"@ && answers@[2]@ == "contYes"@ && answers@[3]@
                == "contNo"@,
    {
        Some(&["yes", "no", "contYes", "contNo"])
    }
}

impl TryFrom<String> for YesNoAuto {
    type Error = &'static str;

    fn try_from(string: String) -> (r: Result<YesNoAuto, &'static str>) {
        let lower = to_lowercase(string.as_str());
        if let Ok(yesno) = YesNo::try_from(string) {
            return Ok(YesNoAuto::Once(yesno));
        }
        if let Some(postfix) = prefix_split("cont", lower.as_str()) {
            if let Ok(yesno_val) = YesNo::try_from(postfix.to_owned()) {
                return Ok(YesNoAuto::Continued(yesno_val));
            }
        }
        Err("Valid answer are Yes/No/Contyes/Contno")
    }
}

impl TryFromSpecImpl<String> for YesNoAuto {
    open spec fn obeys_try_from_spec() -> bool {
        true
    }

    open spec fn try_from_spec(string: String) -> Result<YesNoAuto, &'static str> {
        match yes_no_auto_of(string@) {
            Some(answer) => Ok(answer),
            None => Err("Valid answer are Yes/No/Contyes/Contno"),
        }
    }
}

impl YesNoAuto {
    /// The yes or no of the answer.
    pub fn get_yesno_val(&self) -> (r: YesNo)
        ensures
            r == match *self {
                YesNoAuto::Once(val) => val,
                YesNoAuto::Continued(val) => val,
            },
    {
        match self {
            YesNoAuto::Once(val) => *val,
            YesNoAuto::Continued(val) => *val,
        }
    }
}

} // verus!
