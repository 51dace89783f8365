use file_hasher_core::e_d_list::upkeep::AutoAnswer;
use file_hasher_core::shared::interfacer::{
    AnyString, InterfacerReturnType, SlashEnding, YesNo, YesNoAuto,
};

#[test]
fn any_string_takes_everything() {
    assert_eq!(AnyString::from(String::new()).string, "");
    assert_eq!(AnyString::from("some text".to_string()).string, "some text");
    assert!(AnyString::valid_answers().is_none());
}

#[test]
fn a_slash_ending_must_end_in_a_slash() {
    assert_eq!(SlashEnding::try_from("sub/".to_string()).unwrap().path, "sub/");
    assert_eq!(SlashEnding::try_from("/".to_string()).unwrap().path, "/");
    assert!(SlashEnding::try_from("sub".to_string()).is_err());
    assert!(SlashEnding::try_from("sub/ ".to_string()).is_err());
    assert!(SlashEnding::try_from(String::new()).is_err());
    assert!(SlashEnding::valid_answers().is_none());
}

#[test]
fn a_slash_ending_says_what_it_expects() {
    match SlashEnding::try_from("sub".to_string()) {
        Err(message) => assert_eq!(message, "The path must end with a forward slash \"/\""),
        Ok(_) => panic!("accepted"),
    }
}

#[test]
fn yes_and_no_are_read_in_any_case() {
    assert_eq!(YesNo::try_from("yes".to_string()), Ok(YesNo::Yes));
    assert_eq!(YesNo::try_from("YES".to_string()), Ok(YesNo::Yes));
    assert_eq!(YesNo::try_from("No".to_string()), Ok(YesNo::No));
    assert_eq!(YesNo::try_from("nO".to_string()), Ok(YesNo::No));
}

#[test]
fn nothing_else_is_a_yes_or_a_no() {
    for answer in ["", "y", "n", "yes ", " no", "contyes", "nein"] {
        assert_eq!(
            YesNo::try_from(answer.to_string()),
            Err("Only Yes or No are valid answers")
        );
    }
}

#[test]
fn an_answer_may_hold_once_or_from_now_on() {
    assert_eq!(YesNoAuto::try_from("yes".to_string()), Ok(YesNoAuto::Once(YesNo::Yes)));
    assert_eq!(YesNoAuto::try_from("NO".to_string()), Ok(YesNoAuto::Once(YesNo::No)));
    assert_eq!(YesNoAuto::try_from("contYes".to_string()), Ok(YesNoAuto::Continued(YesNo::Yes)));
    assert_eq!(YesNoAuto::try_from("CONTNO".to_string()), Ok(YesNoAuto::Continued(YesNo::No)));
}

#[test]
fn nothing_else_is_such_an_answer() {
    for answer in ["", "cont", "cont yes", "contcontyes", "continue", "yescont"] {
        assert_eq!(
            YesNoAuto::try_from(answer.to_string()),
            Err("Valid answer are Yes/No/Contyes/Contno")
        );
    }
}

#[test]
fn the_accepted_answers_are_listed() {
    assert_eq!(YesNo::valid_answers(), Some(&["yes", "no"][..]));
    assert_eq!(YesNoAuto::valid_answers(), Some(&["yes", "no", "contYes", "contNo"][..]));
}

#[test]
fn the_yes_or_no_of_an_answer() {
    assert_eq!(YesNoAuto::Once(YesNo::Yes).get_yesno_val(), YesNo::Yes);
    assert_eq!(YesNoAuto::Once(YesNo::No).get_yesno_val(), YesNo::No);
    assert_eq!(YesNoAuto::Continued(YesNo::Yes).get_yesno_val(), YesNo::Yes);
    assert_eq!(YesNoAuto::Continued(YesNo::No).get_yesno_val(), YesNo::No);
}

#[test]
fn an_answer_given_once_pins_nothing() {
    let mut auto = AutoAnswer::new();
    assert_eq!(auto.pinned(), None);
    assert_eq!(auto.record(YesNoAuto::Once(YesNo::Yes)), YesNo::Yes);
    assert_eq!(auto.pinned(), None);
    assert_eq!(auto.record(YesNoAuto::Once(YesNo::No)), YesNo::No);
    assert_eq!(auto.pinned(), None);
}

#[test]
fn an_answer_to_continue_is_pinned() {
    let mut auto = AutoAnswer::new();
    assert_eq!(auto.record(YesNoAuto::Continued(YesNo::No)), YesNo::No);
    assert_eq!(auto.pinned(), Some(YesNo::No));
    assert_eq!(auto.record(YesNoAuto::Once(YesNo::Yes)), YesNo::Yes);
    assert_eq!(auto.pinned(), Some(YesNo::No));
    assert_eq!(auto.record(YesNoAuto::Continued(YesNo::Yes)), YesNo::Yes);
    assert_eq!(auto.pinned(), Some(YesNo::Yes));
}
