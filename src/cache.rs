use vstd::prelude::*;
use vstd::string::*;
use crate::command::{decode_records, decode_schedule, Command, CommandRecord, ScheduleError};

verus! {

/// Where the last segment of `path` begins: just after its last slash.
pub open spec fn segment_start(path: Seq<char>) -> nat
    decreases path.len(),
{
    if path.len() == 0 {
        0
    } else if path.last() == '/' {
        path.len()
    } else {
        segment_start(path.drop_last())
    }
}

/// Where the last dot of `path` stands, if it has one.
pub open spec fn last_dot(path: Seq<char>) -> Option<nat>
    decreases path.len(),
{
    if path.len() == 0 {
        None
    } else if path.last() == '.' {
        Some((path.len() - 1) as nat)
    } else {
        last_dot(path.drop_last())
    }
}

/// `path` without the extension of its last segment. The extension begins at
/// the segment's last dot, unless that dot is the segment's first character.
pub open spec fn without_extension(path: Seq<char>) -> Seq<char> {
    match last_dot(path) {
        Some(d) => if d > segment_start(path) {
            path.take(d as int)
        } else {
            path
        },
        None => path,
    }
}

/// Where the schedule of the media at `uri` lies: a `file:///` URI, without
/// that prefix, with the extension of its file replaced by (or extended with)
/// `.yml`. Other URIs have no schedule file.
pub open spec fn schedule_path_of(uri: Seq<char>) -> Option<Seq<char>> {
    if uri.len() >= 8 && uri.take(8) == "file:///"@ {
        Some(without_extension(uri.skip(8)) + ".yml"@)
    } else {
        None
    }
}

/// The path of the schedule document that belongs to the media at `uri`.
pub fn schedule_path(uri: &str) -> (r: Option<String>)
    ensures
        r matches Some(p) ==> schedule_path_of(uri@) == Some(p@),
        r is None ==> schedule_path_of(uri@) is None,
{
    let n = uri.unicode_len();
    if n < 8 {
        return None;
    }
    let prefix = String::from_str(uri.substring_char(0, 8));
    if prefix != String::from_str("file:///") {
        return None;
    }
    let path = uri.substring_char(8, n);
    assert(path@ =~= uri@.skip(8));
    let len = n - 8;
    let mut start: usize = 0;
    let mut dot: Option<usize> = None;
    let mut i: usize = 0;
    while i < len
        invariant
            len == path@.len(),
            i <= len,
            start == segment_start(path@.take(i as int)),
            dot matches Some(d) ==> d < i && last_dot(path@.take(i as int)) == Some(d as nat),
            dot is None ==> last_dot(path@.take(i as int)) is None,
        decreases len - i,
    {
        let c = path.get_char(i);
        assert(path@.take(i + 1).drop_last() =~= path@.take(i as int));
        if c == '/' {
            start = i + 1;
        } else if c == '.' {
            dot = Some(i);
        }
        i = i + 1;
    }
    assert(path@.take(len as int) =~= path@);
    let mut file = match dot {
        Some(d) => if d > start {
            String::from_str(path.substring_char(0, d))
        } else {
            String::from_str(path)
        },
        None => String::from_str(path),
    };
    file.append(".yml");
    Some(file)
}

/// What became of reading the schedule document of a media item.
#[derive(Debug)]
pub enum ScheduleLoad {
    /// The document was read; these are its records.
    Records(Vec<CommandRecord>),
    /// There is no such document.
    Missing,
    /// The document is not a list of records.
    Malformed,
}

/// How the schedule now cached was obtained.
#[derive(Debug, Clone, Copy, PartialEq, Eq, Structural)]
pub enum LoadReport {
    Loaded,
    Missing,
    Malformed,
    Invalid(ScheduleError),
}

/// The schedule kept for a load, and the report on it: every failure keeps an
/// empty schedule.
pub open spec fn schedule_of(load: ScheduleLoad) -> (Seq<Command>, LoadReport) {
    match load {
        ScheduleLoad::Records(rs) => match decode_records(rs@) {
            Ok(cs) => (cs, LoadReport::Loaded),
            Err(e) => (Seq::empty(), LoadReport::Invalid(e)),
        },
        ScheduleLoad::Missing => (Seq::empty(), LoadReport::Missing),
        ScheduleLoad::Malformed => (Seq::empty(), LoadReport::Malformed),
    }
}

/// The schedule of the media item seen last, kept so that its document is
/// read once and not on every poll.
pub struct CommandCache {
    uri: Option<String>,
    commands: Vec<Command>,
}

/// A cache as the media URI it holds a schedule for, and that schedule.
pub type CacheView = (Option<Seq<char>>, Seq<Command>);

impl View for CommandCache {
    type V = CacheView;

    closed spec fn view(&self) -> CacheView {
        (
            match self.uri {
                Some(u) => Some(u@),
                None => None,
            },
            self.commands@,
        )
    }
}

/// The schedule that a cache holds for `uri`, if it holds that media's.
pub open spec fn cache_lookup(c: CacheView, uri: Seq<char>) -> Option<Seq<Command>> {
    if c.0 == Some(uri) {
        Some(c.1)
    } else {
        None
    }
}

/// A cache after the load for `uri` was stored.
pub open spec fn cache_store(uri: Seq<char>, load: ScheduleLoad) -> CacheView {
    (Some(uri), schedule_of(load).0)
}

fn copy_commands(v: &Vec<Command>) -> (r: Vec<Command>)
    ensures
        r@ == v@,
{
    let mut r: Vec<Command> = Vec::new();
    let mut i: usize = 0;
    while i < v.len()
        invariant
            i <= v@.len(),
            r@ == v@.take(i as int),
        decreases v@.len() - i,
    {
        r.push(v[i]);
        i = i + 1;
        assert(r@ =~= v@.take(i as int));
    }
    assert(v@.take(v@.len() as int) =~= v@);
    r
}

impl CommandCache {
    pub fn new() -> (r: CommandCache)
        ensures
            r@ == (None::<Seq<char>>, Seq::<Command>::empty()),
    {
        CommandCache { uri: None, commands: Vec::new() }
    }

    /// The cached schedule, when it belongs to the media at `uri`.
    pub fn lookup(&self, uri: &str) -> (r: Option<Vec<Command>>)
        ensures
            r matches Some(cs) ==> cache_lookup(self@, uri@) == Some(cs@),
            r is None ==> cache_lookup(self@, uri@) is None,
    {
        match &self.uri {
            Some(u) => {
                if *u == String::from_str(uri) {
                    Some(copy_commands(&self.commands))
                } else {
                    None
                }
            },
            None => None,
        }
    }

    /// Keeps, for the media at `uri`, the schedule that `load` gives, and
    /// returns it with a report on how it was obtained.
    pub fn store(&mut self, uri: &str, load: ScheduleLoad) -> (r: (Vec<Command>, LoadReport))
        ensures
            final(self)@ == cache_store(uri@, load),
            (r.0@, r.1) == schedule_of(load),
    {
        let (commands, report) = match load {
            ScheduleLoad::Records(records) => match decode_schedule(&records) {
                Ok(cs) => (cs, LoadReport::Loaded),
                Err(e) => (Vec::new(), LoadReport::Invalid(e)),
            },
            ScheduleLoad::Missing => (Vec::new(), LoadReport::Missing),
            ScheduleLoad::Malformed => (Vec::new(), LoadReport::Malformed),
        };
        self.uri = Some(String::from_str(uri));
        self.commands = copy_commands(&commands);
        (commands, report)
    }
}

/// The cache is keyed by the media's URI: right after a media item's schedule
/// is stored, asking for that item finds it, so its document is not read
/// again; asking for any other item finds nothing, so that item's document is
/// read, whatever became of the previous one.
pub proof fn lemma_cache_keyed_by_uri(uri: Seq<char>, load: ScheduleLoad, other: Seq<char>)
    ensures
        cache_lookup(cache_store(uri, load), uri) == Some(schedule_of(load).0),
        other != uri ==> cache_lookup(cache_store(uri, load), other) is None,
{
}

/// A missing or malformed schedule document leaves the media item with an
/// empty schedule, kept so that the document is not looked for again.
pub proof fn lemma_failed_load_is_empty(uri: Seq<char>, load: ScheduleLoad)
    requires
        !(load is Records) || decode_records(load->Records_0@) is Err,
    ensures
        cache_lookup(cache_store(uri, load), uri) == Some(Seq::<Command>::empty()),
{
}

} // verus!
