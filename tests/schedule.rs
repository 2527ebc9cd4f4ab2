use vlc_controller::{
    decode_schedule, schedule_path, Command, CommandCache, CommandRecord, Field, FieldValue,
    FormatError, LoadReport, ScheduleError, ScheduleLoad, Time, Volume,
};

fn text(s: &str) -> Option<FieldValue> {
    Some(FieldValue::Text(s.to_string()))
}

fn number(n: u64) -> Option<FieldValue> {
    Some(FieldValue::Number(n))
}

fn record(action: &str) -> CommandRecord {
    CommandRecord { action: action.to_string(), start: None, end: None, at: None, amount: None }
}

fn skip_record(start: Option<FieldValue>, end: Option<FieldValue>) -> CommandRecord {
    CommandRecord { start, end, ..record("skip") }
}

#[test]
fn decodes_skip_from_text_fields() {
    let r = skip_record(text("00:10"), text("15"));
    assert_eq!(
        Command::from_record(&r),
        Ok(Command::Skip { start: Time::from(10), end: Time::from(15) })
    );
}

#[test]
fn decodes_mute_from_numbers() {
    let r = CommandRecord { start: number(20), end: number(25), ..record("mute") };
    assert_eq!(
        Command::from_record(&r),
        Ok(Command::Mute { start: Time::from(20), end: Time::from(25) })
    );
}

#[test]
fn decodes_set_volume_in_percent_and_raw() {
    let r = CommandRecord { amount: text("50%"), at: text("0:30"), ..record("set_volume") };
    assert_eq!(
        Command::from_record(&r),
        Ok(Command::SetVolume { amount: Volume::new(50), at: Time::from(30) })
    );
    let r = CommandRecord { amount: number(256), at: number(30), ..record("set_volume") };
    assert_eq!(
        Command::from_record(&r),
        Ok(Command::SetVolume { amount: Volume::new(100), at: Time::from(30) })
    );
}

#[test]
fn ignores_fields_that_the_action_does_not_use() {
    let r = CommandRecord { amount: text("junk"), at: Some(FieldValue::Other), ..skip_record(number(1), number(2)) };
    assert_eq!(
        Command::from_record(&r),
        Ok(Command::Skip { start: Time::from(1), end: Time::from(2) })
    );
}

#[test]
fn rejects_unknown_action() {
    assert_eq!(Command::from_record(&record("jump")), Err(ScheduleError::UnknownAction));
    assert_eq!(Command::from_record(&record("Skip")), Err(ScheduleError::UnknownAction));
    assert_eq!(Command::from_record(&record("setVolume")), Err(ScheduleError::UnknownAction));
}

#[test]
fn rejects_missing_field() {
    assert_eq!(
        Command::from_record(&skip_record(number(1), None)),
        Err(ScheduleError::Missing(Field::End))
    );
    assert_eq!(
        Command::from_record(&skip_record(None, None)),
        Err(ScheduleError::Missing(Field::Start))
    );
    let r = CommandRecord { amount: text("5%"), ..record("set_volume") };
    assert_eq!(Command::from_record(&r), Err(ScheduleError::Missing(Field::At)));
}

#[test]
fn rejects_invalid_field() {
    assert_eq!(
        Command::from_record(&skip_record(text("ten"), number(2))),
        Err(ScheduleError::Invalid(Field::Start, FormatError::Shape))
    );
    let r = CommandRecord { amount: text("50"), at: number(3), ..record("set_volume") };
    assert_eq!(
        Command::from_record(&r),
        Err(ScheduleError::Invalid(Field::Amount, FormatError::Shape))
    );
    let r = CommandRecord { start: number(1), end: text("99999999999"), ..record("mute") };
    assert_eq!(
        Command::from_record(&r),
        Err(ScheduleError::Invalid(Field::End, FormatError::TooLarge))
    );
}

#[test]
fn rejects_other_values() {
    assert_eq!(
        Command::from_record(&skip_record(number(1), Some(FieldValue::Other))),
        Err(ScheduleError::Invalid(Field::End, FormatError::Shape))
    );
    let r = CommandRecord { amount: Some(FieldValue::Other), at: number(3), ..record("set_volume") };
    assert_eq!(
        Command::from_record(&r),
        Err(ScheduleError::Invalid(Field::Amount, FormatError::Shape))
    );
}

#[test]
fn decodes_schedule_in_order() {
    let records = vec![
        skip_record(number(10), number(15)),
        CommandRecord { start: number(20), end: number(25), ..record("mute") },
    ];
    assert_eq!(
        decode_schedule(&records),
        Ok(vec![
            Command::Skip { start: Time::from(10), end: Time::from(15) },
            Command::Mute { start: Time::from(20), end: Time::from(25) },
        ])
    );
    assert_eq!(decode_schedule(&vec![]), Ok(vec![]));
}

#[test]
fn schedule_fails_with_first_bad_record() {
    let records = vec![
        skip_record(number(10), number(15)),
        record("jump"),
        skip_record(number(1), None),
    ];
    assert_eq!(decode_schedule(&records), Err(ScheduleError::UnknownAction));
}

#[test]
fn schedule_path_replaces_extension() {
    assert_eq!(
        schedule_path("file:///home/user/movie.mp4"),
        Some("home/user/movie.yml".to_string())
    );
    assert_eq!(schedule_path("file:///C:/videos/a.b.mkv"), Some("C:/videos/a.b.yml".to_string()));
    assert_eq!(schedule_path("file:///clip"), Some("clip.yml".to_string()));
}

#[test]
fn schedule_path_keeps_dots_outside_the_extension() {
    assert_eq!(schedule_path("file:///home/.hidden"), Some("home/.hidden.yml".to_string()));
    assert_eq!(schedule_path("file:///a.b/clip"), Some("a.b/clip.yml".to_string()));
    assert_eq!(schedule_path("file:///movie.tar.gz"), Some("movie.tar.yml".to_string()));
    assert_eq!(schedule_path("file:///movie."), Some("movie.yml".to_string()));
}

#[test]
fn schedule_path_needs_file_uri() {
    assert_eq!(schedule_path("http://host/movie.mp4"), None);
    assert_eq!(schedule_path("file://"), None);
    assert_eq!(schedule_path(""), None);
}

fn resolve(cache: &mut CommandCache, uri: &str, reads: &mut u32, load: fn() -> ScheduleLoad) -> Vec<Command> {
    match cache.lookup(uri) {
        Some(commands) => commands,
        None => {
            *reads += 1;
            cache.store(uri, load()).0
        }
    }
}

fn one_skip() -> ScheduleLoad {
    ScheduleLoad::Records(vec![skip_record(number(10), number(15))])
}

fn missing() -> ScheduleLoad {
    ScheduleLoad::Missing
}

#[test]
fn cache_reads_document_once_per_uri() {
    let mut cache = CommandCache::new();
    let mut reads = 0;
    let first = resolve(&mut cache, "file:///a.mp4", &mut reads, one_skip);
    let second = resolve(&mut cache, "file:///a.mp4", &mut reads, one_skip);
    assert_eq!(reads, 1);
    assert_eq!(first, second);
    assert_eq!(first, vec![Command::Skip { start: Time::from(10), end: Time::from(15) }]);
}

#[test]
fn cache_rereads_when_uri_changes() {
    let mut cache = CommandCache::new();
    let mut reads = 0;
    let a = resolve(&mut cache, "file:///a.mp4", &mut reads, missing);
    assert_eq!(a, vec![]);
    resolve(&mut cache, "file:///a.mp4", &mut reads, missing);
    assert_eq!(reads, 1);
    let b = resolve(&mut cache, "file:///b.mp4", &mut reads, one_skip);
    assert_eq!(reads, 2);
    assert_eq!(b.len(), 1);
    resolve(&mut cache, "file:///a.mp4", &mut reads, one_skip);
    assert_eq!(reads, 3);
}

#[test]
fn new_cache_holds_nothing() {
    let cache = CommandCache::new();
    assert_eq!(cache.lookup(""), None);
    assert_eq!(cache.lookup("file:///a.mp4"), None);
}

#[test]
fn missing_document_gives_empty_schedule() {
    let mut cache = CommandCache::new();
    let (commands, report) = cache.store("file:///a.mp4", ScheduleLoad::Missing);
    assert_eq!(commands, vec![]);
    assert_eq!(report, LoadReport::Missing);
    assert_eq!(cache.lookup("file:///a.mp4"), Some(vec![]));
}

#[test]
fn malformed_document_gives_empty_schedule() {
    let mut cache = CommandCache::new();
    let (commands, report) = cache.store("file:///a.mp4", ScheduleLoad::Malformed);
    assert_eq!(commands, vec![]);
    assert_eq!(report, LoadReport::Malformed);
    let (commands, report) = cache.store("file:///b.mp4", ScheduleLoad::Records(vec![record("jump")]));
    assert_eq!(commands, vec![]);
    assert_eq!(report, LoadReport::Invalid(ScheduleError::UnknownAction));
    assert_eq!(cache.lookup("file:///b.mp4"), Some(vec![]));
    assert_eq!(cache.lookup("file:///a.mp4"), None);
}

#[test]
fn loaded_document_is_reported() {
    let mut cache = CommandCache::new();
    let (commands, report) = cache.store("file:///a.mp4", one_skip());
    assert_eq!(commands.len(), 1);
    assert_eq!(report, LoadReport::Loaded);
}
