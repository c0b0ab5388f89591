use std::cell::RefCell;

use chrono::Datelike;
use remember_bday::date::Date;
use remember_bday::notifications::windows::WindowsNotifier;
use remember_bday::notifications::{notification_properties, Notifier, NotifierError};
use remember_bday::vcard::VCard;
use remember_bday::{birthday_messages, send_bday_notifications, send_bday_notifications_on};

struct MockNotifier {
    messages: RefCell<Vec<String>>,
}

impl Notifier for MockNotifier {
    fn send_notification(&self, message: String) -> Result<(), NotifierError> {
        self.messages.borrow_mut().push(message);
        Ok(())
    }
}

impl MockNotifier {
    fn new() -> MockNotifier {
        MockNotifier {
            messages: RefCell::new(Vec::new()),
        }
    }
}

struct FailingNotifier;

impl Notifier for FailingNotifier {
    fn send_notification(&self, _message: String) -> Result<(), NotifierError> {
        Err(NotifierError::new(String::from("sink is down")))
    }
}

fn to_date(d: chrono::NaiveDate) -> Date {
    Date::new(d.year(), d.month() as u8, d.day() as u8)
}

#[test]
fn send_bday_notifications_none() {
    let mn = MockNotifier::new();

    // either yesterday or tomorrow, whichever works
    let not_today = chrono::Local::now()
        .date_naive()
        .checked_add_days(chrono::Days::new(1))
        .or_else(|| {
            Some(
                chrono::Local::now()
                    .date_naive()
                    .checked_sub_days(chrono::Days::new(1))
                    .unwrap(),
            )
        });
    let vcards = vec![
        VCard {
            name: "Test No Birthday".to_string(),
            bday: None,
        },
        VCard {
            name: "Test Birthday not today".to_string(),
            bday: not_today.map(to_date),
        },
    ];
    send_bday_notifications(&mn, vcards).unwrap();
    assert_eq!(Vec::<String>::new(), mn.messages.into_inner());
}

#[test]
fn send_bday_notifications_multiple() {
    let mn = MockNotifier::new();
    let today = to_date(chrono::Local::now().date_naive());
    let vcards = vec![
        VCard {
            name: "Test 1".to_string(),
            bday: Some(today),
        },
        VCard {
            name: "Test 2".to_string(),
            bday: Some(today),
        },
    ];
    send_bday_notifications(&mn, vcards).unwrap();
    assert_eq!(
        vec![
            "It's Test 1's birthday today!".to_string(),
            "It's Test 2's birthday today!".to_string()
        ],
        mn.messages.into_inner()
    );
}

#[test]
fn send_bday_notifications_failure_is_reported() {
    let vcards = vec![VCard {
        name: "Test 1".to_string(),
        bday: Some(Date::new(1980, 5, 7)),
    }];
    let result = send_bday_notifications_on(&FailingNotifier, &vcards, Date::new(2024, 5, 7));
    assert!(result.is_err());
    assert_eq!(
        "Error while sending a notification: sink is down",
        result.unwrap_err().to_message().as_str()
    );
}

#[test]
fn birthday_messages_match_on_day_and_month_only() {
    let vcards = vec![
        VCard {
            name: "Match Across Years".to_string(),
            bday: Some(Date::new(1980, 5, 7)),
        },
        VCard {
            name: "No Birthday".to_string(),
            bday: None,
        },
        VCard {
            name: "Other Day".to_string(),
            bday: Some(Date::new(1980, 5, 8)),
        },
    ];
    let msgs = birthday_messages(&vcards, Date::new(2024, 5, 7));
    assert_eq!(
        vec!["It's Match Across Years's birthday today!".to_string()],
        msgs
    );
}

#[test]
fn notification_properties_values() {
    let props = notification_properties(String::from("It's Test 1's birthday today!"));
    assert_eq!(
        vec![
            ("title".to_string(), "Remember B-Day".to_string()),
            ("body".to_string(), "It's Test 1's birthday today!".to_string()),
            ("priority".to_string(), "low".to_string()),
        ],
        props
    );
}

#[test]
fn windows_notifier_toast_xml() {
    let notifier = WindowsNotifier::new("Test.Id");
    assert_eq!("Test.Id", notifier.app_id);
    let xml = notifier.toast_xml("It's Test 1's birthday today!");
    let expected = "<toast duration='short'>\n                <visual>\n                    <binding template='ToastGeneric'>\n                        <text id='1'>It's Test 1's birthday today!</text>\n                    </binding>\n                </visual>\n            </toast>";
    assert_eq!(expected, xml);
}
