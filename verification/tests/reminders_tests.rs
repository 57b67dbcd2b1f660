use eorzea_bot::reminders::{
    disable_reminder, reminder_action, reminder_announcement, reminder_start_step, DisableOutcome, ReminderAction,
    Reminders, StartStep, START_POLL_SECONDS,
};

const ID_TEXT: &str = "f6cb4bc5-ea8a-4bcb-b21a-97b03ab56dba";
const ID: u128 = 0xf6cb4bc5_ea8a_4bcb_b21a_97b03ab56dba;

#[test]
fn register_then_disable() {
    let mut reminders: Reminders<&str> = Reminders::new();
    assert!(reminders.register(ID, "task").is_none());
    assert!(reminders.is_active(ID));
    assert!(matches!(disable_reminder(&mut reminders, ID_TEXT), DisableOutcome::Disabled("task")));
    assert!(!reminders.is_active(ID));
    assert!(matches!(disable_reminder(&mut reminders, ID_TEXT), DisableOutcome::NotFound));
}

#[test]
fn disable_accepts_other_uuid_forms() {
    let mut reminders: Reminders<u8> = Reminders::new();
    reminders.register(ID, 1);
    assert!(matches!(
        disable_reminder(&mut reminders, "F6CB4BC5EA8A4BCBB21A97B03AB56DBA"),
        DisableOutcome::Disabled(1)
    ));
}

#[test]
fn disable_refuses_text_that_is_no_uuid() {
    let mut reminders: Reminders<u8> = Reminders::new();
    reminders.register(ID, 1);
    assert!(matches!(disable_reminder(&mut reminders, "not-a-uuid"), DisableOutcome::InvalidId));
    assert!(matches!(disable_reminder(&mut reminders, ""), DisableOutcome::InvalidId));
    assert!(reminders.is_active(ID));
}

#[test]
fn disable_unknown_id_changes_nothing() {
    let mut reminders: Reminders<u8> = Reminders::new();
    reminders.register(ID, 1);
    assert!(matches!(
        disable_reminder(&mut reminders, "00000000-0000-0000-0000-000000000001"),
        DisableOutcome::NotFound
    ));
    assert!(reminders.is_active(ID));
}

#[test]
fn register_same_id_hands_back_old_task() {
    let mut reminders: Reminders<u8> = Reminders::new();
    assert_eq!(reminders.register(ID, 1), None);
    assert_eq!(reminders.register(ID, 2), Some(1));
    assert!(matches!(disable_reminder(&mut reminders, ID_TEXT), DisableOutcome::Disabled(2)));
}

#[test]
fn announcement_names_the_uuid() {
    let (id, message) = reminder_announcement();
    assert_eq!((id >> 76) & 0xf, 4);
    assert_eq!((id >> 62) & 0x3, 2);
    let prefix = "Uuid for the message is ";
    assert!(message.starts_with(prefix));
    let text = &message[prefix.len()..];
    assert_eq!(text.len(), 36);
    assert_eq!(u128::from_str_radix(&text.replace('-', ""), 16).unwrap(), id);
    assert_eq!(text, text.to_lowercase());
    for (i, c) in text.chars().enumerate() {
        assert_eq!(c == '-', i == 8 || i == 13 || i == 18 || i == 23);
    }
}

#[test]
fn announced_id_disables_its_reminder() {
    let (id, message) = reminder_announcement();
    let mut reminders: Reminders<u8> = Reminders::new();
    reminders.register(id, 7);
    let text = &message["Uuid for the message is ".len()..];
    assert!(matches!(disable_reminder(&mut reminders, text), DisableOutcome::Disabled(7)));
    assert!(!reminders.is_active(id));
}

#[test]
fn start_step_waits_until_the_first_time_has_passed() {
    assert!(matches!(reminder_start_step(Some(100), 100), StartStep::Wait { clock_error: false }));
    assert!(matches!(reminder_start_step(Some(99), 100), StartStep::Wait { clock_error: false }));
    assert!(matches!(reminder_start_step(Some(101), 100), StartStep::Start));
    assert!(matches!(reminder_start_step(None, 0), StartStep::Wait { clock_error: true }));
    assert_eq!(START_POLL_SECONDS, 30);
}

#[test]
fn cactpot_command_is_the_announcement() {
    assert!(matches!(reminder_action("cactpot"), ReminderAction::Cactpot));
    assert!(matches!(reminder_action("fashion"), ReminderAction::FashionReport));
    match reminder_action("hello there") {
        ReminderAction::Say(t) => assert_eq!(t, "hello there"),
        _ => panic!("any other text is posted as it is"),
    }
    match reminder_action("Cactpot ") {
        ReminderAction::Say(t) => assert_eq!(t, "Cactpot "),
        _ => panic!("the word must match exactly"),
    }
}
