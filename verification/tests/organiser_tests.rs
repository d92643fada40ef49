use inotify::EventMask;
use organiser::archive::{ArchiveEntry, Extraction, Unpacking};
use organiser::moves::Relocation;
use organiser::organiser::{
    is_relevant, Decision, Event, Idle, Organiser, Probe, Task, CLOSE_WRITE, MOVED_TO,
};
use organiser::place::Place;
use organiser::rules::{Action, DuplicateAction, Rule, SelectError};
use organiser::size::{SizeError, SizeMatcher};
use regex::Regex;
use std::io::{Cursor, Read, Write};
use zip::write::FileOptions;
use zip::{ZipArchive, ZipWriter};

fn rule(pattern: &str, min_size: Option<&str>, actions: Vec<Action>) -> Rule {
    Rule {
        regex: Regex::new(pattern).unwrap(),
        min_size: min_size.map(|s| s.to_string()),
        actions,
    }
}

fn organiser(rules: Vec<Rule>) -> Organiser {
    Organiser::new("/base".to_string(), "inbox".to_string(), rules, SizeMatcher::new().unwrap())
}

fn sample() -> Organiser {
    organiser(vec![
        rule(r"\.zip$", None, vec![Action::Unzip { dest: "extracted".to_string() }]),
        rule(
            r"\.pdf$",
            Some("1k"),
            vec![Action::Move { dest: "docs".to_string(), duplicate: DuplicateAction::RenameDate }],
        ),
        rule(r"\.tmp$", None, vec![Action::Delete, Action::Unzip { dest: "never".to_string() }]),
        rule(
            r"\.pdf$",
            None,
            vec![Action::Move { dest: "small".to_string(), duplicate: DuplicateAction::Skip }],
        ),
    ])
}

fn closed(name: &str) -> Event {
    Event { mask: CLOSE_WRITE, name: Some(name.to_string()) }
}

fn found(size: u64) -> Probe {
    Probe::Present { size: Some(size) }
}

#[test]
fn masks_are_those_of_inotify() {
    assert_eq!(CLOSE_WRITE, EventMask::CLOSE_WRITE.bits());
    assert_eq!(MOVED_TO, EventMask::MOVED_TO.bits());
}

#[test]
fn other_kinds_of_event_are_ignored() {
    let others = [
        EventMask::CREATE.bits(),
        EventMask::DELETE.bits(),
        EventMask::MODIFY.bits(),
        EventMask::ATTRIB.bits(),
        EventMask::MOVED_FROM.bits(),
        EventMask::CLOSE_NOWRITE.bits(),
        EventMask::MOVED_TO.bits() | EventMask::ISDIR.bits(),
        EventMask::CLOSE_WRITE.bits() | EventMask::MOVED_TO.bits(),
        0,
    ];
    for mask in others {
        let event = Event { mask, name: Some("a.zip".to_string()) };
        assert_eq!(sample().process_event(&event, &found(10)), Ok(Decision::Ignore(Idle::Irrelevant)));
        assert_eq!(sample().subject(&event), None);
    }
}

#[test]
fn event_without_name_is_ignored() {
    let event = Event { mask: MOVED_TO, name: None };
    assert_eq!(sample().process_event(&event, &found(10)), Ok(Decision::Ignore(Idle::Unnamed)));
    assert_eq!(sample().subject(&event), None);
}

#[test]
fn subject_is_the_file_in_the_watched_directory() {
    assert_eq!(sample().subject(&closed("a.zip")), Some(Place::new("/base", "inbox", "a.zip")));
    let moved = Event { mask: MOVED_TO, name: Some("b".to_string()) };
    assert_eq!(sample().subject(&moved), Some(Place::new("/base", "inbox", "b")));
}

#[test]
fn vanished_file_is_ignored() {
    let gone = Probe::Absent;
    assert_eq!(sample().process_event(&closed("a.zip"), &gone), Ok(Decision::Ignore(Idle::Vanished)));
    assert_eq!(sample().process_event(&closed("a.pdf"), &gone), Ok(Decision::Ignore(Idle::Vanished)));
    assert_eq!(sample().process_event(&closed("notes.txt"), &gone), Ok(Decision::Ignore(Idle::Vanished)));
}

#[test]
fn unmatched_file_is_left() {
    assert_eq!(
        sample().process_event(&closed("notes.txt"), &found(10)),
        Ok(Decision::Ignore(Idle::Unmatched))
    );
    assert_eq!(
        organiser(vec![]).process_event(&closed("notes.txt"), &found(10)),
        Ok(Decision::Ignore(Idle::Unmatched))
    );
}

#[test]
fn move_task_names_source_and_target() {
    assert_eq!(
        sample().process_event(&closed("big.pdf"), &found(5000)),
        Ok(Decision::Act {
            rule: 1,
            task: Task::Move(Relocation {
                source: Place::new("/base", "inbox", "big.pdf"),
                target: Place::new("/base", "docs", "big.pdf"),
                duplicate: DuplicateAction::RenameDate,
            }),
        })
    );
}

#[test]
fn small_file_goes_to_the_next_matching_rule() {
    assert_eq!(
        sample().process_event(&closed("small.pdf"), &found(1024)),
        Ok(Decision::Act {
            rule: 3,
            task: Task::Move(Relocation {
                source: Place::new("/base", "inbox", "small.pdf"),
                target: Place::new("/base", "small", "small.pdf"),
                duplicate: DuplicateAction::Skip,
            }),
        })
    );
}

#[test]
fn only_the_first_action_of_a_rule_is_taken() {
    let moved = Event { mask: MOVED_TO, name: Some("x.tmp".to_string()) };
    assert_eq!(
        sample().process_event(&moved, &found(0)),
        Ok(Decision::Act { rule: 2, task: Task::Delete { source: Place::new("/base", "inbox", "x.tmp") } })
    );
}

#[test]
fn delete_rule_removes_the_file_of_the_event() {
    let organiser = organiser(vec![rule("", None, vec![Action::Delete])]);
    assert_eq!(
        organiser.process_event(&closed("anything at all"), &found(3)),
        Ok(Decision::Act {
            rule: 0,
            task: Task::Delete { source: Place::new("/base", "inbox", "anything at all") },
        })
    );
}

#[test]
fn is_relevant_takes_the_two_masks_alone() {
    assert!(is_relevant(0x8));
    assert!(is_relevant(0x80));
    assert!(!is_relevant(0x88));
    assert!(!is_relevant(0x4000_0080));
    assert!(!is_relevant(0));
    assert!(!is_relevant(u32::MAX));
}

#[test]
fn unreadable_size_fails_the_event_when_a_rule_asks_for_it() {
    let unread = Probe::Present { size: None };
    assert_eq!(sample().process_event(&closed("a.pdf"), &unread), Err(SelectError::SizeUnknown));
    assert_eq!(
        sample().process_event(&closed("x.tmp"), &unread),
        Ok(Decision::Act { rule: 2, task: Task::Delete { source: Place::new("/base", "inbox", "x.tmp") } })
    );
}

#[test]
fn bad_threshold_fails_the_event() {
    let organiser = organiser(vec![rule("a", Some("5x"), vec![Action::Delete])]);
    assert_eq!(
        organiser.process_event(&closed("a"), &found(1)),
        Err(SelectError::Threshold(SizeError::UnknownUnit("x".to_string())))
    );
    assert_eq!(organiser.process_event(&closed("b"), &found(1)), Ok(Decision::Ignore(Idle::Unmatched)));
}

#[test]
fn task_for_each_kind_of_action() {
    let organiser = organiser(vec![]);
    assert_eq!(
        organiser.task_for(&Action::Delete, "f"),
        Task::Delete { source: Place::new("/base", "inbox", "f") }
    );
    assert_eq!(
        organiser.task_for(&Action::Unzip { dest: "out".to_string() }, "f.zip"),
        Task::Unzip(Unpacking {
            archive: Place::new("/base", "inbox", "f.zip"),
            root: "/base".to_string(),
            dest: "out".to_string(),
        })
    );
    assert_eq!(
        organiser.task_for(
            &Action::Move { dest: "to".to_string(), duplicate: DuplicateAction::Overwrite },
            "f"
        ),
        Task::Move(Relocation {
            source: Place::new("/base", "inbox", "f"),
            target: Place::new("/base", "to", "f"),
            duplicate: DuplicateAction::Overwrite,
        })
    );
}

#[test]
fn zip_rule_unpacks_the_archive_and_keeps_it() {
    let mut writer = ZipWriter::new(Cursor::new(Vec::new()));
    writer.start_file("a.txt", FileOptions::default()).unwrap();
    writer.write_all(b"hello").unwrap();
    let bytes = writer.finish().unwrap().into_inner();

    let organiser = organiser(vec![rule(
        r"\.zip$",
        None,
        vec![Action::Unzip { dest: "extracted".to_string() }],
    )]);
    let decision = organiser
        .process_event(&closed("archive.zip"), &found(bytes.len() as u64))
        .unwrap();
    let unpacking = match decision {
        Decision::Act { rule: 0, task: Task::Unzip(unpacking) } => unpacking,
        other => panic!("not an unpacking: {:?}", other),
    };
    assert_eq!(unpacking.archive, Place::new("/base", "inbox", "archive.zip"));

    let mut archive = ZipArchive::new(Cursor::new(bytes)).unwrap();
    assert_eq!(archive.len(), 1);
    let mut file = archive.by_index(0).unwrap();
    let entry = ArchiveEntry {
        name: file.name().to_string(),
        enclosed_name: file.enclosed_name().map(|p| p.to_str().unwrap().to_string()),
        unix_mode: file.unix_mode(),
    };
    let mut content = String::new();
    file.read_to_string(&mut content).unwrap();
    assert_eq!(
        unpacking.plan_entry(&entry),
        Extraction::File { place: Place::new("/base", "extracted", "a.txt"), mode: Some(0o100644) }
    );
    assert_eq!(content, "hello");
}
