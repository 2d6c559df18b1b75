use odilia::accessible::AccessiblePrimitive;
use odilia::command::{
    CaretPos, CommandType, CommandTypeDynamic, Focus, IntoCommands, OdiliaCommand,
    OdiliaCommandDiscriminants, SetState, Speak, TryIntoCommands,
};
use odilia::errors::{CacheError, OdiliaError};
use ssip::Priority;

#[test]
fn commands_of_tuples_keep_order() {
    let cmds = (CaretPos(3), (Priority::Text, "hi"), Option::<Focus>::None, ()).into_commands();
    assert_eq!(
        cmds,
        vec![
            OdiliaCommand::CaretPos(CaretPos(3)),
            OdiliaCommand::Speak(Speak("hi".to_string(), Priority::Text)),
        ]
    );
    let k = AccessiblePrimitive::from_event(":1.1", "/a");
    let cmds = (Some(Focus(k.clone())), [OdiliaCommand::CaretPos(CaretPos(1))]).into_commands();
    assert_eq!(cmds, vec![OdiliaCommand::Focus(Focus(k)), OdiliaCommand::CaretPos(CaretPos(1))]);
}

#[test]
fn try_into_commands_passes_errors() {
    let ok: Result<CaretPos, OdiliaError> = Ok(CaretPos(2));
    assert_eq!(ok.try_into_commands().unwrap(), vec![OdiliaCommand::CaretPos(CaretPos(2))]);
    let err: Result<CaretPos, OdiliaError> = Err(OdiliaError::Cache(CacheError::NoItem));
    assert!(matches!(err.try_into_commands(), Err(OdiliaError::Cache(CacheError::NoItem))));
    let list: Result<Vec<OdiliaCommand>, OdiliaError> = Ok(vec![OdiliaCommand::CaretPos(CaretPos(5))]);
    assert_eq!(list.try_into_commands().unwrap(), vec![OdiliaCommand::CaretPos(CaretPos(5))]);
    assert_eq!((Priority::Important, "x".to_string()).try_into_commands().unwrap().len(), 1);
}

#[test]
fn command_kinds() {
    let k = AccessiblePrimitive::from_event(":1.1", "/a");
    let c: OdiliaCommand = SetState { item: k, state: 4, enabled: true }.into();
    assert_eq!(c.ctype(), OdiliaCommandDiscriminants::SetState);
    assert_eq!(Speak::ctype_of(), OdiliaCommandDiscriminants::Speak);
    let s = Speak("a".to_string(), Priority::Message);
    assert_eq!(s.clone(), s);
    assert_eq!(OdiliaCommand::from(CaretPos(0)).ctype(), OdiliaCommandDiscriminants::CaretPos);
}
