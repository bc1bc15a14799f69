use classnote::class::Class;
use classnote::config::{exit_report, Config, Editor};
use classnote::location::Location;
use classnote::obsidian::ObsidianPath;
use classnote::schedule::{current_class, current_class_index};
use classnote::time::{ClassTime, Day, Time, Times};

fn at(day: Day, hour: u8, minute: u8) -> Time {
    Time { day, hour, minute, second: 0 }
}

fn meeting(day: Day, from: u8, to: u8) -> ClassTime {
    ClassTime {
        start: at(day, from, 0),
        end: at(day, to, 0),
        location: Location {
            campus: "North".to_string(),
            building: "Science".to_string(),
            room: "12".to_string(),
        },
    }
}

fn class(name: &str, meetings: Vec<ClassTime>) -> Class {
    Class::new(name.to_string(), "Dr. Ito".to_string(), Times::from(meetings), Times::Async)
}

#[test]
fn the_class_in_session_is_found() {
    let classes = vec![
        class("MATH101", vec![meeting(Day::Monday, 9, 10), meeting(Day::Wednesday, 9, 10)]),
        class("CS200", vec![meeting(Day::Tuesday, 13, 15)]),
    ];
    assert_eq!(current_class_index(&classes, at(Day::Tuesday, 14, 0)), Some(1));
    assert_eq!(current_class_index(&classes, at(Day::Wednesday, 9, 30)), Some(0));
    let found = current_class(&classes, at(Day::Tuesday, 14, 0)).unwrap();
    assert_eq!(found.get_name(), "CS200");
}

#[test]
fn no_class_in_session_is_no_error() {
    let classes = vec![class("MATH101", vec![meeting(Day::Monday, 9, 10)])];
    assert_eq!(current_class_index(&classes, at(Day::Monday, 11, 0)), None);
    assert!(current_class(&classes, at(Day::Friday, 9, 30)).is_none());
    assert_eq!(current_class_index(&Vec::new(), at(Day::Monday, 9, 30)), None);
}

#[test]
fn earlier_declared_class_wins_an_overlap() {
    let classes = vec![
        class("LATE", vec![meeting(Day::Friday, 9, 10)]),
        class("FIRST", vec![meeting(Day::Monday, 9, 11)]),
        class("SECOND", vec![meeting(Day::Monday, 10, 12)]),
    ];
    assert_eq!(current_class_index(&classes, at(Day::Monday, 10, 30)), Some(1));
    assert_eq!(current_class(&classes, at(Day::Monday, 10, 30)).unwrap().get_name(), "FIRST");
    assert_eq!(current_class_index(&classes, at(Day::Monday, 11, 30)), Some(2));
    let swapped = vec![
        class("SECOND", vec![meeting(Day::Monday, 10, 12)]),
        class("FIRST", vec![meeting(Day::Monday, 9, 11)]),
    ];
    assert_eq!(current_class(&swapped, at(Day::Monday, 10, 30)).unwrap().get_name(), "SECOND");
}

#[test]
fn async_class_is_never_in_session() {
    let classes = vec![
        Class::from_names("READING".to_string(), "Dr. Ito".to_string()),
        class("MATH101", vec![meeting(Day::Monday, 9, 10)]),
    ];
    assert_eq!(current_class_index(&classes, at(Day::Monday, 9, 30)), Some(1));
    assert_eq!(current_class_index(&classes, at(Day::Tuesday, 9, 30)), None);
    assert_eq!(current_class_index(&classes[..1].to_vec(), at(Day::Async, 0, 0)), None);
}

#[test]
fn async_instant_matches_the_first_scheduled_class() {
    let classes = vec![
        class("MATH101", vec![meeting(Day::Monday, 9, 10)]),
        class("CS200", vec![meeting(Day::Tuesday, 13, 15)]),
    ];
    assert_eq!(current_class_index(&classes, at(Day::Async, 0, 0)), Some(0));
}

#[test]
fn class_getters() {
    let c = class("MATH101", vec![meeting(Day::Monday, 9, 10)]);
    assert_eq!(c.get_name(), "MATH101");
    assert_eq!(c.get_professor(), "Dr. Ito");
    assert_eq!(c.get_times().len(), 1);
    assert_eq!(c.get_office_hours().len(), 0);
    let bare = Class::from_names("CS200".to_string(), "Dr. Wu".to_string());
    assert_eq!(bare.get_name(), "CS200");
    assert_eq!(bare.get_professor(), "Dr. Wu");
    assert!(matches!(bare.get_times(), Times::Async));
    assert!(matches!(bare.get_office_hours(), Times::Async));
    let empty = Class::default();
    assert_eq!(empty.get_name(), "");
    assert!(matches!(empty.get_times(), Times::Async));
}

#[test]
fn class_listing_of_an_async_class() {
    let bare = Class::from_names("CS200".to_string(), "Dr. Wu".to_string());
    assert_eq!(bare.to_string(), "\tCS200 (Dr. Wu), asynchronous.");
}

#[test]
fn class_listing_has_a_line_per_meeting() {
    let c = class("MATH101", vec![meeting(Day::Monday, 9, 10), meeting(Day::Wednesday, 13, 14)]);
    assert_eq!(
        c.to_string(),
        "\tMATH101 (Dr. Ito) on Monday, from 09:00:00 to 10:00:00, at North, Science (Room 12)\n\
         \tMATH101 (Dr. Ito) on Wednesday, from 13:00:00 to 14:00:00, at North, Science (Room 12)\n"
    );
}

#[test]
fn config_holds_what_it_is_given() {
    let mut config = Config::new(
        "/home/me/notes".to_string(),
        vec![class("MATH101", vec![meeting(Day::Monday, 9, 10)])],
        "nano".to_string(),
    );
    assert_eq!(config.get_root(), "/home/me/notes");
    assert_eq!(config.get_classes().len(), 1);
    assert!(config.get_editor().is_simple());
    assert_eq!(config.get_editor().get_program(), "nano");
    config.set_root("/tmp/notes".to_string());
    assert_eq!(config.get_root(), "/tmp/notes");
    config.add_class(Class::from_names("CS200".to_string(), "Dr. Wu".to_string()));
    assert_eq!(config.get_classes().len(), 2);
    assert_eq!(config.get_classes()[0].get_name(), "MATH101");
    assert_eq!(config.get_classes()[1].get_name(), "CS200");
    config.set_editor(Editor::Complex {
        program: "obsidian".to_string(),
        uri: ObsidianPath { vault: "School".to_string(), courses_root: "Courses".to_string() },
    });
    assert!(!config.get_editor().is_simple());
    assert_eq!(config.get_editor().get_program(), "obsidian");
    assert_eq!(config.get_classes().len(), 2);
    assert_eq!(config.get_root(), "/tmp/notes");
}

#[test]
fn default_config_is_empty() {
    let config = Config::default();
    assert_eq!(config.get_root(), "");
    assert!(config.get_classes().is_empty());
    assert!(config.get_editor().is_simple());
    assert_eq!(config.get_editor().get_program(), "");
    assert!(Editor::default().is_simple());
}

#[test]
fn editor_program_can_be_replaced() {
    let mut simple = Editor::Simple("vi".to_string());
    simple.set_program("emacs".to_string());
    assert!(simple.is_simple());
    assert_eq!(simple.get_program(), "emacs");
    let mut complex = Editor::Complex {
        program: "obsidian".to_string(),
        uri: ObsidianPath { vault: "School".to_string(), courses_root: "Courses".to_string() },
    };
    complex.set_program("obsidian-beta".to_string());
    assert_eq!(complex.get_program(), "obsidian-beta");
    match complex {
        Editor::Complex { uri, .. } => assert_eq!(uri.vault, "School"),
        Editor::Simple(_) => panic!("the editor changed its kind"),
    }
}

#[test]
fn editor_program_falls_back() {
    let set = Config::new(String::new(), Vec::new(), "nano".to_string());
    assert_eq!(set.get_editor_program(Some("emacs".to_string())), "nano");
    assert_eq!(set.get_editor_program(None), "nano");
    let unset = Config::default();
    assert_eq!(unset.get_editor_program(Some("emacs".to_string())), "emacs");
    assert_eq!(unset.get_editor_program(None), "vim");
    assert_eq!(unset.get_editor_program(Some(String::new())), "");
}

#[test]
fn unique_names_are_recognised() {
    let mut config = Config::default();
    assert!(config.names_are_unique());
    config.add_class(Class::from_names("A".to_string(), "p".to_string()));
    config.add_class(Class::from_names("B".to_string(), "p".to_string()));
    assert!(config.names_are_unique());
    config.add_class(Class::from_names("A".to_string(), "q".to_string()));
    assert!(!config.names_are_unique());
}

#[test]
fn available_classes_lists_every_class() {
    let mut config = Config::default();
    assert_eq!(config.available_classes(), "Available classes:\n");
    config.add_class(class("MATH101", vec![meeting(Day::Monday, 9, 10)]));
    config.add_class(Class::from_names("CS200".to_string(), "Dr. Wu".to_string()));
    assert_eq!(
        config.available_classes(),
        "Available classes:\n\tMATH101 (Dr. Ito) on Monday, from 09:00:00 to 10:00:00, at North, Science (Room 12)\n\tCS200 (Dr. Wu), asynchronous."
    );
}

#[test]
fn obsidian_uri_of_the_course_folder() {
    let path = ObsidianPath {
        vault: "My Vault".to_string(),
        courses_root: "School Notes/Fall 24".to_string(),
    };
    assert_eq!(path.to_uri(), "obsidian://open?vault=My%20Vault&file=School%20Notes%2FFall%2024");
    let slashed = ObsidianPath { vault: "a/b".to_string(), courses_root: String::new() };
    assert_eq!(slashed.to_uri(), "obsidian://open?vault=a/b&file=");
    let empty = ObsidianPath::default();
    assert_eq!(empty.to_uri(), "obsidian://open?vault=&file=");
}

#[test]
fn obsidian_uri_of_a_note() {
    let parts: Vec<String> = ["/", "home", "me", "My Vault", "MATH 101", "Week_1", "Class1-2024-01-01", "Class1-2024-01-01.md"]
        .iter()
        .map(|s| s.to_string())
        .collect();
    assert_eq!(
        ObsidianPath::build_uri(&"My Vault".to_string(), &parts),
        "obsidian://open?vault=My%20Vault&file=MATH%20101%2FWeek_1%2FClass1-2024-01-01%2FClass1-2024-01-01.md"
    );
}

#[test]
fn obsidian_uri_without_the_vault_in_the_path() {
    let parts: Vec<String> = ["home", "me", "notes"].iter().map(|s| s.to_string()).collect();
    assert_eq!(
        ObsidianPath::build_uri(&"Vault".to_string(), &parts),
        "obsidian://open?vault=Vault&file="
    );
    assert_eq!(
        ObsidianPath::build_uri(&"a b/c".to_string(), &Vec::new()),
        "obsidian://open?vault=a%20b%20c&file="
    );
    let last: Vec<String> = ["home", "Vault"].iter().map(|s| s.to_string()).collect();
    assert_eq!(
        ObsidianPath::build_uri(&"Vault".to_string(), &last),
        "obsidian://open?vault=Vault&file="
    );
}

#[test]
fn obsidian_uri_starts_after_the_first_vault_component() {
    let parts: Vec<String> = ["V", "a", "V", "b"].iter().map(|s| s.to_string()).collect();
    assert_eq!(
        ObsidianPath::build_uri(&"V".to_string(), &parts),
        "obsidian://open?vault=V&file=a%2FV%2Fb"
    );
}

#[test]
fn exit_reports() {
    assert_eq!(exit_report("vim", true), "vim exited successfully.");
    assert_eq!(exit_report("nano", false), "nano exited with an error..");
}
